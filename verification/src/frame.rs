use vstd::prelude::*;

use crate::geometry::Rect;
use crate::size_policy::{Policy, QSizePolicy};

verus! {

/// Frame shape (`QFrame::Shape`).
#[derive(Debug, Clone, Copy, PartialEq, Eq, Hash, Structural)]
pub enum FrameShape {
    /// No frame is drawn.
    NoFrame,
    /// A box around the contents.
    Box,
    /// A panel making the contents appear raised or sunken.
    Panel,
    /// A two-pixel Windows-style panel.
    WinPanel,
    /// A horizontal separator line.
    HLine,
    /// A vertical separator line.
    VLine,
    /// A style-dependent panel (two pixels wide).
    StyledPanel,
}

/// Frame 3D shadow (`QFrame::Shadow`).
#[derive(Debug, Clone, Copy, PartialEq, Eq, Hash, Structural)]
pub enum FrameShadow {
    /// Drawn in the foreground color without 3D effect.
    Plain,
    /// Appears raised using light/dark shading.
    Raised,
    /// Appears sunken using light/dark shading.
    Sunken,
}

/// Mask selecting the shape bits of a combined frame style (`QFrame::Shape_Mask`).
pub const FRAME_SHAPE_MASK: i32 = 0x000f;

/// Mask selecting the shadow bits of a combined frame style (`QFrame::Shadow_Mask`).
pub const FRAME_SHADOW_MASK: i32 = 0x00f0;

/// Default style frame width used by `StyledPanel` (`QStyle::PM_DefaultFrameWidth`).
pub const DEFAULT_STYLED_FRAME_WIDTH: i32 = 2;

impl FrameShape {
    /// Qt's `frameStyle` bits of the shape.
    pub open spec fn spec_bits(self) -> i32 {
        match self {
            FrameShape::NoFrame => 0,
            FrameShape::Box => 1,
            FrameShape::Panel => 2,
            FrameShape::WinPanel => 3,
            FrameShape::HLine => 4,
            FrameShape::VLine => 5,
            FrameShape::StyledPanel => 6,
        }
    }

    /// The shape named by the shape bits of `bits` (`NoFrame` for unknown values).
    pub open spec fn spec_from_bits(bits: i32) -> FrameShape {
        let b = bits & FRAME_SHAPE_MASK;
        if b == 1 {
            FrameShape::Box
        } else if b == 2 {
            FrameShape::Panel
        } else if b == 3 {
            FrameShape::WinPanel
        } else if b == 4 {
            FrameShape::HLine
        } else if b == 5 {
            FrameShape::VLine
        } else if b == 6 {
            FrameShape::StyledPanel
        } else {
            FrameShape::NoFrame
        }
    }

    /// Qt's `frameStyle` bits of the shape.
    pub fn bits(self) -> (r: i32)
        ensures
            r == self.spec_bits(),
    {
        match self {
            FrameShape::NoFrame => 0,
            FrameShape::Box => 1,
            FrameShape::Panel => 2,
            FrameShape::WinPanel => 3,
            FrameShape::HLine => 4,
            FrameShape::VLine => 5,
            FrameShape::StyledPanel => 6,
        }
    }

    /// Decodes the shape bits of a combined frame style.
    pub fn from_bits(bits: i32) -> (r: Self)
        ensures
            r == Self::spec_from_bits(bits),
    {
        let b = bits & FRAME_SHAPE_MASK;
        if b == 1 {
            FrameShape::Box
        } else if b == 2 {
            FrameShape::Panel
        } else if b == 3 {
            FrameShape::WinPanel
        } else if b == 4 {
            FrameShape::HLine
        } else if b == 5 {
            FrameShape::VLine
        } else if b == 6 {
            FrameShape::StyledPanel
        } else {
            FrameShape::NoFrame
        }
    }
}

impl FrameShadow {
    /// Qt's `frameStyle` bits of the shadow.
    pub open spec fn spec_bits(self) -> i32 {
        match self {
            FrameShadow::Plain => 0x10,
            FrameShadow::Raised => 0x20,
            FrameShadow::Sunken => 0x30,
        }
    }

    /// The shadow named by the shadow bits of `bits` (`Plain` for unknown values).
    pub open spec fn spec_from_bits(bits: i32) -> FrameShadow {
        let b = bits & FRAME_SHADOW_MASK;
        if b == 0x20 {
            FrameShadow::Raised
        } else if b == 0x30 {
            FrameShadow::Sunken
        } else {
            FrameShadow::Plain
        }
    }

    /// Qt's `frameStyle` bits of the shadow.
    pub fn bits(self) -> (r: i32)
        ensures
            r == self.spec_bits(),
    {
        match self {
            FrameShadow::Plain => 0x10,
            FrameShadow::Raised => 0x20,
            FrameShadow::Sunken => 0x30,
        }
    }

    /// Decodes the shadow bits of a combined frame style.
    pub fn from_bits(bits: i32) -> (r: Self)
        ensures
            r == Self::spec_from_bits(bits),
    {
        let b = bits & FRAME_SHADOW_MASK;
        if b == 0x20 {
            FrameShadow::Raised
        } else if b == 0x30 {
            FrameShadow::Sunken
        } else {
            FrameShadow::Plain
        }
    }
}

/// Frame parameters (`QFrame` shape/shadow/lineWidth/midLineWidth) with Qt's
/// frame-width rules.
#[derive(Debug, Clone, Copy, PartialEq, Eq, Hash, Structural)]
pub struct FrameStyle {
    pub shape: FrameShape,
    pub shadow: FrameShadow,
    pub line_width: i32,
    pub mid_line_width: i32,
}

impl Default for FrameStyle {
    fn default() -> (r: FrameStyle)
        ensures
            r == FrameStyle::spec_new(FrameShape::NoFrame, FrameShadow::Plain),
    {
        FrameStyle::new(FrameShape::NoFrame, FrameShadow::Plain)
    }
}

/// `v` if positive, otherwise zero.
pub open spec fn non_negative(v: int) -> int {
    if v > 0 {
        v
    } else {
        0
    }
}

impl FrameStyle {
    /// A style with line width 1 and mid-line width 0.
    pub open spec fn spec_new(shape: FrameShape, shadow: FrameShadow) -> FrameStyle {
        FrameStyle { shape, shadow, line_width: 1, mid_line_width: 0 }
    }

    /// Width of a separator line or shaded box outline: the line width, twice
    /// plus the mid-line width when shaded (negative widths count as zero).
    pub open spec fn spec_line_thickness(&self) -> int {
        match self.shadow {
            FrameShadow::Plain => non_negative(self.line_width as int),
            _ => 2 * non_negative(self.line_width as int) + non_negative(
                self.mid_line_width as int,
            ),
        }
    }

    /// Width of the drawn frame on each side (`QFrame::frameWidth`).
    pub open spec fn spec_frame_width(&self) -> int {
        match self.shape {
            FrameShape::NoFrame => 0,
            FrameShape::Box | FrameShape::HLine | FrameShape::VLine => self.spec_line_thickness(),
            FrameShape::Panel => non_negative(self.line_width as int),
            FrameShape::WinPanel => 2,
            FrameShape::StyledPanel => DEFAULT_STYLED_FRAME_WIDTH as int,
        }
    }

    /// Creates a style with Qt's default line width (1) and mid-line width (0).
    pub fn new(shape: FrameShape, shadow: FrameShadow) -> (r: Self)
        ensures
            r == Self::spec_new(shape, shadow),
    {
        FrameStyle { shape, shadow, line_width: 1, mid_line_width: 0 }
    }

    /// Combined `shape | shadow` bits (`QFrame::frameStyle`).
    pub fn bits(&self) -> (r: i32)
        ensures
            r == self.shape.spec_bits() | self.shadow.spec_bits(),
    {
        self.shape.bits() | self.shadow.bits()
    }

    /// Replaces shape and shadow from combined bits (`QFrame::setFrameStyle`).
    pub fn set_bits(&mut self, bits: i32)
        ensures
            final(self).shape == FrameShape::spec_from_bits(bits),
            final(self).shadow == FrameShadow::spec_from_bits(bits),
            final(self).line_width == old(self).line_width,
            final(self).mid_line_width == old(self).mid_line_width,
    {
        self.shape = FrameShape::from_bits(bits);
        self.shadow = FrameShadow::from_bits(bits);
    }

    /// Thickness of a separator line drawn for `HLine`/`VLine`.
    pub fn line_thickness(&self) -> (r: i32)
        requires
            self.spec_line_thickness() <= i32::MAX,
        ensures
            r == self.spec_line_thickness(),
    {
        let lw = if self.line_width > 0 {
            self.line_width
        } else {
            0
        };
        let mlw = if self.mid_line_width > 0 {
            self.mid_line_width
        } else {
            0
        };
        match self.shadow {
            FrameShadow::Plain => lw,
            _ => lw * 2 + mlw,
        }
    }

    /// Width of the drawn frame on each side (`QFrame::frameWidth`), following
    /// `QCommonStyle::SE_ShapedFrameContents`.
    pub fn frame_width(&self) -> (r: i32)
        requires
            self.spec_line_thickness() <= i32::MAX,
        ensures
            r == self.spec_frame_width(),
            r >= 0,
    {
        match self.shape {
            FrameShape::NoFrame => 0,
            FrameShape::Box | FrameShape::HLine | FrameShape::VLine => self.line_thickness(),
            FrameShape::Panel => if self.line_width > 0 {
                self.line_width
            } else {
                0
            },
            FrameShape::WinPanel => 2,
            FrameShape::StyledPanel => DEFAULT_STYLED_FRAME_WIDTH,
        }
    }

    /// The area inside the frame for a given frame rectangle (`QFrame::contentsRect`):
    /// inset by the frame width on every side, never of negative extent.
    pub fn contents_rect(&self, frame_rect: Rect) -> (r: Rect)
        requires
            self.spec_line_thickness() <= i32::MAX,
            i32::MIN <= frame_rect.x + self.spec_frame_width() <= i32::MAX,
            i32::MIN <= frame_rect.y + self.spec_frame_width() <= i32::MAX,
            2 * self.spec_frame_width() <= i32::MAX,
            i32::MIN <= frame_rect.width - 2 * self.spec_frame_width(),
            i32::MIN <= frame_rect.height - 2 * self.spec_frame_width(),
        ensures
            r.x == frame_rect.x + self.spec_frame_width(),
            r.y == frame_rect.y + self.spec_frame_width(),
            r.width == non_negative(frame_rect.width - 2 * self.spec_frame_width()),
            r.height == non_negative(frame_rect.height - 2 * self.spec_frame_width()),
    {
        let fw = self.frame_width();
        let w = frame_rect.width - 2 * fw;
        let h = frame_rect.height - 2 * fw;
        Rect::new(
            frame_rect.x + fw,
            frame_rect.y + fw,
            if w > 0 {
                w
            } else {
                0
            },
            if h > 0 {
                h
            } else {
                0
            },
        )
    }
}

/// Palette role a frame is painted in, looked up in the active colour group
/// for an enabled widget and in the disabled group otherwise.
#[derive(Debug, Clone, Copy, PartialEq, Eq, Hash, Structural)]
pub enum FrameRole {
    Light,
    Midlight,
    Mid,
    Dark,
    Shadow,
    WindowText,
}

/// One drawing step of a frame.
#[derive(Debug, Clone, Copy, PartialEq, Eq, Structural)]
pub enum FramePaintOp {
    /// A one-pixel bevel ring `inset` pixels inside the frame rectangle: its
    /// top and left edges in `top_left`, its bottom and right edges in
    /// `bottom_right`; nothing is drawn where the inset leaves no area.
    Ring { inset: i32, top_left: FrameRole, bottom_right: FrameRole },
    /// A filled rectangle, for the bands of a separator line.
    Band { rect: Rect, role: FrameRole },
}

/// Rings at insets `from`, `from + 1`, ... up to `to` (excluded).
pub open spec fn ring_run(from: int, to: int, top_left: FrameRole, bottom_right: FrameRole) -> Seq<
    FramePaintOp,
> {
    Seq::new(
        if from <= to {
            (to - from) as nat
        } else {
            0
        },
        |i: int| FramePaintOp::Ring { inset: (from + i) as i32, top_left, bottom_right },
    )
}

/// `v / 2` rounded toward zero.
pub open spec fn half_toward_zero(v: int) -> int {
    if v >= 0 {
        v / 2
    } else {
        -((-v) / 2)
    }
}

/// The band of a separator `size` pixels thick at `offset` across the line's
/// thickness (downward for a horizontal line, rightward for a vertical one);
/// nothing for an empty band.
pub open spec fn band_op(rect: Rect, horizontal: bool, offset: int, size: int, role: FrameRole) -> Seq<
    FramePaintOp,
> {
    if size <= 0 {
        Seq::empty()
    } else if horizontal {
        seq![
            FramePaintOp::Band {
                rect: Rect { x: rect.x, y: (rect.y + offset) as i32, width: rect.width, height: size as i32 },
                role,
            },
        ]
    } else {
        seq![
            FramePaintOp::Band {
                rect: Rect { x: (rect.x + offset) as i32, y: rect.y, width: size as i32, height: rect.height },
                role,
            },
        ]
    }
}

/// Offset of the first band of a separator line: the line is centred across
/// the rectangle.
pub open spec fn separator_start(style: FrameStyle, rect: Rect) -> int {
    let span = if style.shape == FrameShape::HLine {
        rect.height
    } else {
        rect.width
    };
    half_toward_zero(span - style.spec_line_thickness())
}

/// The arithmetic of painting `style` in `rect` stays within `i32`.
pub open spec fn frame_paint_fits(style: FrameStyle, rect: Rect) -> bool {
    rect.width > 0 && rect.height > 0 ==> match style.shape {
        FrameShape::Box => style.spec_line_thickness() <= i32::MAX,
        FrameShape::HLine | FrameShape::VLine => {
            let base = if style.shape == FrameShape::HLine {
                rect.y
            } else {
                rect.x
            };
            let start = separator_start(style, rect);
            &&& style.spec_line_thickness() <= i32::MAX
            &&& i32::MIN <= base + start
            &&& base + start + style.spec_line_thickness() <= i32::MAX
        },
        _ => true,
    }
}

/// Roles of the outer bevel: dark over light for a sunken frame, light over
/// dark otherwise.
pub open spec fn bevel_roles(shadow: FrameShadow) -> (FrameRole, FrameRole) {
    if shadow == FrameShadow::Sunken {
        (FrameRole::Dark, FrameRole::Light)
    } else {
        (FrameRole::Light, FrameRole::Dark)
    }
}

/// The rings that paint a box or panel frame (nothing for the other shapes).
pub open spec fn spec_ring_ops(style: FrameStyle) -> Seq<FramePaintOp> {
    let lw = non_negative(style.line_width as int);
    let mlw = non_negative(style.mid_line_width as int);
    let plain = style.shadow == FrameShadow::Plain;
    let tl = bevel_roles(style.shadow).0;
    let br = bevel_roles(style.shadow).1;
    let fg = FrameRole::WindowText;
    let ring = |inset: i32, a: FrameRole, b: FrameRole|
        FramePaintOp::Ring { inset, top_left: a, bottom_right: b };
    match style.shape {
        FrameShape::Box => if plain {
            ring_run(0, lw, fg, fg)
        } else {
            ring_run(0, lw, tl, br) + ring_run(lw, lw + mlw, FrameRole::Mid, FrameRole::Mid)
                + ring_run(lw + mlw, 2 * lw + mlw, br, tl)
        },
        FrameShape::Panel => if plain {
            ring_run(0, lw, fg, fg)
        } else {
            ring_run(0, lw, tl, br)
        },
        FrameShape::WinPanel => match style.shadow {
            FrameShadow::Plain => seq![ring(0, fg, fg), ring(1, fg, fg)],
            FrameShadow::Raised => seq![
                ring(0, FrameRole::Light, FrameRole::Shadow),
                ring(1, FrameRole::Midlight, FrameRole::Dark),
            ],
            FrameShadow::Sunken => seq![
                ring(0, FrameRole::Dark, FrameRole::Light),
                ring(1, FrameRole::Shadow, FrameRole::Midlight),
            ],
        },
        FrameShape::StyledPanel => seq![ring(0, FrameRole::Mid, FrameRole::Mid)] + match style.shadow {
            FrameShadow::Plain => Seq::empty(),
            FrameShadow::Raised => seq![ring(1, FrameRole::Light, FrameRole::Midlight)],
            FrameShadow::Sunken => seq![ring(1, FrameRole::Midlight, FrameRole::Light)],
        },
        _ => Seq::empty(),
    }
}

/// The bands that paint a separator line centred across `rect`: one band of
/// the line width for a plain line, else a light/dark band, a mid band of the
/// mid-line width, and the reversed band.
pub open spec fn spec_separator_ops(style: FrameStyle, rect: Rect) -> Seq<FramePaintOp> {
    let lw = non_negative(style.line_width as int);
    let mlw = non_negative(style.mid_line_width as int);
    let horizontal = style.shape == FrameShape::HLine;
    let start = separator_start(style, rect);
    if style.shadow == FrameShadow::Plain {
        band_op(rect, horizontal, start, lw, FrameRole::WindowText)
    } else {
        band_op(rect, horizontal, start, lw, bevel_roles(style.shadow).0) + band_op(
            rect,
            horizontal,
            start + lw,
            mlw,
            FrameRole::Mid,
        ) + band_op(rect, horizontal, start + lw + mlw, lw, bevel_roles(style.shadow).1)
    }
}

/// The drawing steps that paint `style` in `rect`, in order.
pub open spec fn spec_frame_paint_ops(style: FrameStyle, rect: Rect) -> Seq<FramePaintOp> {
    if rect.width <= 0 || rect.height <= 0 {
        Seq::empty()
    } else {
        match style.shape {
            FrameShape::HLine | FrameShape::VLine => spec_separator_ops(style, rect),
            _ => spec_ring_ops(style),
        }
    }
}

/// Appends the rings at insets `from` up to `to` (excluded).
fn push_rings(
    ops: &mut Vec<FramePaintOp>,
    from: i32,
    to: i32,
    top_left: FrameRole,
    bottom_right: FrameRole,
)
    ensures
        final(ops)@ == old(ops)@ + ring_run(from as int, to as int, top_left, bottom_right),
{
    let ghost start = ops@;
    let mut i: i32 = from;
    while i < to
        invariant
            from <= to ==> from <= i <= to,
            from > to ==> i == from,
            ops@ == start + ring_run(from as int, i as int, top_left, bottom_right),
        decreases to - i,
    {
        ops.push(FramePaintOp::Ring { inset: i, top_left, bottom_right });
        proof {
            assert(ring_run(from as int, i as int, top_left, bottom_right).push(
                FramePaintOp::Ring { inset: i, top_left, bottom_right },
            ) =~= ring_run(from as int, i + 1, top_left, bottom_right));
        }
        i = i + 1;
    }
    proof {
        if from > to {
            assert(ring_run(from as int, to as int, top_left, bottom_right) =~= ring_run(
                from as int,
                i as int,
                top_left,
                bottom_right,
            ));
        }
    }
}

/// Appends the band `size` thick at `offset`, if it is not empty.
fn push_band(
    ops: &mut Vec<FramePaintOp>,
    rect: Rect,
    horizontal: bool,
    offset: i32,
    size: i32,
    role: FrameRole,
)
    requires
        horizontal ==> i32::MIN <= rect.y + offset <= i32::MAX,
        !horizontal ==> i32::MIN <= rect.x + offset <= i32::MAX,
    ensures
        final(ops)@ == old(ops)@ + band_op(rect, horizontal, offset as int, size as int, role),
{
    if size <= 0 {
        assert(old(ops)@ + band_op(rect, horizontal, offset as int, size as int, role) =~= old(ops)@);
        return;
    }
    let band = if horizontal {
        Rect { x: rect.x, y: rect.y + offset, width: rect.width, height: size }
    } else {
        Rect { x: rect.x + offset, y: rect.y, width: size, height: rect.height }
    };
    ops.push(FramePaintOp::Band { rect: band, role });
    assert(ops@ =~= old(ops)@ + band_op(rect, horizontal, offset as int, size as int, role));
}

impl FrameStyle {
    /// The rings of a box or panel frame.
    fn ring_ops(&self) -> (r: Vec<FramePaintOp>)
        requires
            self.shape == FrameShape::Box ==> self.spec_line_thickness() <= i32::MAX,
        ensures
            r@ == spec_ring_ops(*self),
    {
        let mut ops: Vec<FramePaintOp> = Vec::new();
        let lw = if self.line_width > 0 {
            self.line_width
        } else {
            0
        };
        let mlw = if self.mid_line_width > 0 {
            self.mid_line_width
        } else {
            0
        };
        let (tl, br) = match self.shadow {
            FrameShadow::Sunken => (FrameRole::Dark, FrameRole::Light),
            _ => (FrameRole::Light, FrameRole::Dark),
        };
        let plain = match self.shadow {
            FrameShadow::Plain => true,
            _ => false,
        };
        let fg = FrameRole::WindowText;
        match self.shape {
            FrameShape::Box => {
                if plain {
                    push_rings(&mut ops, 0, lw, fg, fg);
                } else {
                    push_rings(&mut ops, 0, lw, tl, br);
                    push_rings(&mut ops, lw, lw + mlw, FrameRole::Mid, FrameRole::Mid);
                    push_rings(&mut ops, lw + mlw, 2 * lw + mlw, br, tl);
                }
            },
            FrameShape::Panel => {
                if plain {
                    push_rings(&mut ops, 0, lw, fg, fg);
                } else {
                    push_rings(&mut ops, 0, lw, tl, br);
                }
            },
            FrameShape::WinPanel => {
                let (a0, b0, a1, b1) = match self.shadow {
                    FrameShadow::Plain => (fg, fg, fg, fg),
                    FrameShadow::Raised => (
                        FrameRole::Light,
                        FrameRole::Shadow,
                        FrameRole::Midlight,
                        FrameRole::Dark,
                    ),
                    FrameShadow::Sunken => (
                        FrameRole::Dark,
                        FrameRole::Light,
                        FrameRole::Shadow,
                        FrameRole::Midlight,
                    ),
                };
                ops.push(FramePaintOp::Ring { inset: 0, top_left: a0, bottom_right: b0 });
                ops.push(FramePaintOp::Ring { inset: 1, top_left: a1, bottom_right: b1 });
            },
            FrameShape::StyledPanel => {
                let mid = FrameRole::Mid;
                ops.push(FramePaintOp::Ring { inset: 0, top_left: mid, bottom_right: mid });
                match self.shadow {
                    FrameShadow::Plain => {},
                    FrameShadow::Raised => {
                        let (a, b) = (FrameRole::Light, FrameRole::Midlight);
                        ops.push(FramePaintOp::Ring { inset: 1, top_left: a, bottom_right: b });
                    },
                    FrameShadow::Sunken => {
                        let (a, b) = (FrameRole::Midlight, FrameRole::Light);
                        ops.push(FramePaintOp::Ring { inset: 1, top_left: a, bottom_right: b });
                    },
                }
            },
            _ => {},
        }
        assert(ops@ =~= spec_ring_ops(*self));
        ops
    }

    /// The bands of a separator line.
    fn separator_ops(&self, rect: Rect) -> (r: Vec<FramePaintOp>)
        requires
            self.shape == FrameShape::HLine || self.shape == FrameShape::VLine,
            rect.width > 0,
            rect.height > 0,
            frame_paint_fits(*self, rect),
        ensures
            r@ == spec_separator_ops(*self, rect),
    {
        let mut ops: Vec<FramePaintOp> = Vec::new();
        let lw = if self.line_width > 0 {
            self.line_width
        } else {
            0
        };
        let mlw = if self.mid_line_width > 0 {
            self.mid_line_width
        } else {
            0
        };
        let horizontal = match self.shape {
            FrameShape::HLine => true,
            _ => false,
        };
        let thickness = self.line_thickness();
        let span = if horizontal {
            rect.height
        } else {
            rect.width
        };
        let d = span - thickness;
        let start = if d >= 0 {
            d / 2
        } else {
            -((-d) / 2)
        };
        assert(start == separator_start(*self, rect));
        match self.shadow {
            FrameShadow::Plain => {
                push_band(&mut ops, rect, horizontal, start, lw, FrameRole::WindowText);
            },
            _ => {
                let (tl, br) = match self.shadow {
                    FrameShadow::Sunken => (FrameRole::Dark, FrameRole::Light),
                    _ => (FrameRole::Light, FrameRole::Dark),
                };
                push_band(&mut ops, rect, horizontal, start, lw, tl);
                push_band(&mut ops, rect, horizontal, start + lw, mlw, FrameRole::Mid);
                push_band(&mut ops, rect, horizontal, start + lw + mlw, lw, br);
            },
        }
        ops
    }

    /// The drawing steps that paint this frame in `rect`, in order: bevel
    /// rings for boxes and panels, filled bands for separator lines, and
    /// nothing for an empty rectangle. The caller fills them with the palette
    /// colours of each role.
    pub fn paint(&self, rect: Rect) -> (r: Vec<FramePaintOp>)
        requires
            frame_paint_fits(*self, rect),
        ensures
            r@ == spec_frame_paint_ops(*self, rect),
    {
        if rect.width <= 0 || rect.height <= 0 {
            let ops: Vec<FramePaintOp> = Vec::new();
            assert(ops@ =~= spec_frame_paint_ops(*self, rect));
            return ops;
        }
        match self.shape {
            FrameShape::HLine | FrameShape::VLine => self.separator_ops(rect),
            _ => self.ring_ops(),
        }
    }
}

/// Decoding the bits of a shape and shadow gives back that shape and shadow.
pub proof fn lemma_frame_bits_roundtrip(shape: FrameShape, shadow: FrameShadow)
    ensures
        FrameShape::spec_from_bits(shape.spec_bits() | shadow.spec_bits()) == shape,
        FrameShadow::spec_from_bits(shape.spec_bits() | shadow.spec_bits()) == shadow,
{
    let a = shape.spec_bits();
    let b = shadow.spec_bits();
    assert(0 <= a <= 6);
    assert(b == 0x10 || b == 0x20 || b == 0x30);
    assert((a | b) & 0x0f == a && (a | b) & 0xf0 == b) by (bit_vector)
        requires
            0 <= a <= 6,
            b == 0x10 || b == 0x20 || b == 0x30,
    ;
}


/// A frame widget as plain values.
pub struct FrameView {
    pub style: FrameStyle,
    /// The rectangle the frame is drawn in, when set apart from the whole widget.
    pub frame_rect: Option<Rect>,
    pub geometry: Rect,
    pub size_policy: QSizePolicy,
}

/// Separator lines keep their thickness fixed; other frames size freely.
pub open spec fn frame_size_policy(shape: FrameShape) -> QSizePolicy {
    match shape {
        FrameShape::HLine => QSizePolicy::spec_new(Policy::Minimum, Policy::Fixed),
        FrameShape::VLine => QSizePolicy::spec_new(Policy::Fixed, Policy::Minimum),
        _ => QSizePolicy::spec_new(Policy::Preferred, Policy::Preferred),
    }
}

/// The frame after `setFrameStyle(bits)`: shape and shadow from the bits,
/// and the size policy of the shape.
pub open spec fn spec_set_frame_style(v: FrameView, bits: i32) -> FrameView {
    let shape = FrameShape::spec_from_bits(bits);
    FrameView {
        style: FrameStyle { shape, shadow: FrameShadow::spec_from_bits(bits), ..v.style },
        size_policy: frame_size_policy(shape),
        ..v
    }
}

/// The rectangle the frame is drawn in: the one set, else the whole widget.
pub open spec fn spec_frame_rect(v: FrameView) -> Rect {
    match v.frame_rect {
        Some(r) => r,
        None => Rect { x: 0, y: 0, width: v.geometry.width, height: v.geometry.height },
    }
}

/// The contents can be placed without leaving `i32`.
pub open spec fn contents_fit(v: FrameView) -> bool {
    let fw = v.style.spec_frame_width();
    let fr = spec_frame_rect(v);
    &&& v.style.spec_line_thickness() <= i32::MAX
    &&& i32::MIN <= fr.x + fw <= i32::MAX
    &&& i32::MIN <= fr.y + fw <= i32::MAX
    &&& 2 * fw <= i32::MAX
    &&& i32::MIN <= fr.width - 2 * fw
    &&& i32::MIN <= fr.height - 2 * fw
}

/// A frame around contents (`QFrame`).
pub struct Frame {
    style: FrameStyle,
    frame_rect: Option<Rect>,
    geometry: Rect,
    size_policy: QSizePolicy,
}

impl View for Frame {
    type V = FrameView;

    closed spec fn view(&self) -> FrameView {
        FrameView {
            style: self.style,
            frame_rect: self.frame_rect,
            geometry: self.geometry,
            size_policy: self.size_policy,
        }
    }
}

impl Frame {
    /// A frame without a frame: `NoFrame | Plain`, line width 1.
    pub fn new() -> (r: Self)
        ensures
            r@ == spec_set_frame_style(
                FrameView {
                    style: FrameStyle::spec_new(FrameShape::NoFrame, FrameShadow::Plain),
                    frame_rect: None,
                    geometry: Rect { x: 0, y: 0, width: 0, height: 0 },
                    size_policy: QSizePolicy::spec_new(Policy::Preferred, Policy::Preferred),
                },
                FrameShape::NoFrame.spec_bits() | FrameShadow::Plain.spec_bits(),
            ),
    {
        Self::with_style(FrameShape::NoFrame, FrameShadow::Plain)
    }

    /// A frame of `shape` and `shadow`, line width 1, mid-line width 0.
    pub fn with_style(shape: FrameShape, shadow: FrameShadow) -> (r: Self)
        ensures
            r@ == spec_set_frame_style(
                FrameView {
                    style: FrameStyle::spec_new(FrameShape::NoFrame, FrameShadow::Plain),
                    frame_rect: None,
                    geometry: Rect { x: 0, y: 0, width: 0, height: 0 },
                    size_policy: QSizePolicy::spec_new(Policy::Preferred, Policy::Preferred),
                },
                shape.spec_bits() | shadow.spec_bits(),
            ),
            r@.style == FrameStyle::spec_new(shape, shadow),
    {
        let mut f = Frame {
            style: FrameStyle::new(FrameShape::NoFrame, FrameShadow::Plain),
            frame_rect: None,
            geometry: Rect { x: 0, y: 0, width: 0, height: 0 },
            size_policy: QSizePolicy::new(Policy::Preferred, Policy::Preferred),
        };
        proof {
            lemma_frame_bits_roundtrip(shape, shadow);
        }
        f.set_frame_style(shape.bits() | shadow.bits());
        f
    }

    pub fn frame_shape(&self) -> (r: FrameShape)
        ensures
            r == self@.style.shape,
    {
        self.style.shape
    }

    /// Changes the shape, keeping the shadow.
    pub fn set_frame_shape(&mut self, shape: FrameShape)
        ensures
            final(self)@ == spec_set_frame_style(old(self)@, shape.spec_bits() | old(self)@.style.shadow.spec_bits()),
            final(self)@.style.shape == shape,
            final(self)@.style.shadow == old(self)@.style.shadow,
    {
        proof {
            lemma_frame_bits_roundtrip(shape, self.style.shadow);
        }
        let b = shape.bits() | self.style.shadow.bits();
        self.set_frame_style(b);
    }

    pub fn frame_shadow(&self) -> (r: FrameShadow)
        ensures
            r == self@.style.shadow,
    {
        self.style.shadow
    }

    /// Changes the shadow, keeping the shape.
    pub fn set_frame_shadow(&mut self, shadow: FrameShadow)
        ensures
            final(self)@ == spec_set_frame_style(old(self)@, old(self)@.style.shape.spec_bits() | shadow.spec_bits()),
            final(self)@.style.shape == old(self)@.style.shape,
            final(self)@.style.shadow == shadow,
    {
        proof {
            lemma_frame_bits_roundtrip(self.style.shape, shadow);
        }
        let b = self.style.shape.bits() | shadow.bits();
        self.set_frame_style(b);
    }

    /// The combined shape and shadow bits.
    pub fn frame_style(&self) -> (r: i32)
        ensures
            r == self@.style.shape.spec_bits() | self@.style.shadow.spec_bits(),
    {
        self.style.bits()
    }

    /// Sets shape and shadow from combined bits; separator lines get the
    /// size policy of a line.
    pub fn set_frame_style(&mut self, bits: i32)
        ensures
            final(self)@ == spec_set_frame_style(old(self)@, bits),
    {
        self.style.set_bits(bits);
        self.size_policy = match self.style.shape {
            FrameShape::HLine => QSizePolicy::new(Policy::Minimum, Policy::Fixed),
            FrameShape::VLine => QSizePolicy::new(Policy::Fixed, Policy::Minimum),
            _ => QSizePolicy::new(Policy::Preferred, Policy::Preferred),
        };
    }

    /// The frame parameters.
    pub fn frame_params(&self) -> (r: FrameStyle)
        ensures
            r == self@.style,
    {
        self.style
    }

    pub fn line_width(&self) -> (r: i32)
        ensures
            r == self@.style.line_width,
    {
        self.style.line_width
    }

    /// Sets the line width; a negative width counts as 0.
    pub fn set_line_width(&mut self, width: i32)
        ensures
            final(self)@ == (FrameView {
                style: FrameStyle { line_width: non_negative(width as int) as i32, ..old(self)@.style },
                ..old(self)@
            }),
    {
        self.style.line_width = if width > 0 {
            width
        } else {
            0
        };
    }

    pub fn mid_line_width(&self) -> (r: i32)
        ensures
            r == self@.style.mid_line_width,
    {
        self.style.mid_line_width
    }

    /// Sets the mid-line width; a negative width counts as 0.
    pub fn set_mid_line_width(&mut self, width: i32)
        ensures
            final(self)@ == (FrameView {
                style: FrameStyle { mid_line_width: non_negative(width as int) as i32, ..old(self)@.style },
                ..old(self)@
            }),
    {
        self.style.mid_line_width = if width > 0 {
            width
        } else {
            0
        };
    }

    /// The frame's width on each side.
    pub fn frame_width(&self) -> (r: i32)
        requires
            self@.style.spec_line_thickness() <= i32::MAX,
        ensures
            r == self@.style.spec_frame_width(),
    {
        self.style.frame_width()
    }

    /// The rectangle the frame is drawn in.
    pub fn frame_rect(&self) -> (r: Rect)
        ensures
            r == spec_frame_rect(self@),
    {
        match self.frame_rect {
            Some(r) => r,
            None => Rect { x: 0, y: 0, width: self.geometry.width, height: self.geometry.height },
        }
    }

    /// Sets the rectangle the frame is drawn in; none restores the whole widget.
    pub fn set_frame_rect(&mut self, rect: Option<Rect>)
        ensures
            final(self)@ == (FrameView { frame_rect: rect, ..old(self)@ }),
    {
        self.frame_rect = rect;
    }

    /// The area inside the frame: the frame rectangle inset by the frame
    /// width on every side, never of negative extent.
    pub fn contents_rect(&self) -> (r: Rect)
        requires
            contents_fit(self@),
        ensures
            ({
                let fw = self@.style.spec_frame_width();
                let fr = spec_frame_rect(self@);
                r == Rect {
                    x: (fr.x + fw) as i32,
                    y: (fr.y + fw) as i32,
                    width: non_negative(fr.width - 2 * fw) as i32,
                    height: non_negative(fr.height - 2 * fw) as i32,
                }
            }),
    {
        let fr = self.frame_rect();
        proof {
            assert(self@.style.spec_frame_width() >= 0);
        }
        self.style.contents_rect(fr)
    }

    /// The size policy.
    pub fn size_policy(&self) -> (r: QSizePolicy)
        ensures
            r == self@.size_policy,
    {
        self.size_policy
    }

    pub fn geometry(&self) -> (r: Rect)
        ensures
            r == self@.geometry,
    {
        self.geometry
    }

    pub fn set_geometry(&mut self, rect: Rect)
        ensures
            final(self)@ == (FrameView { geometry: rect, ..old(self)@ }),
    {
        self.geometry = rect;
    }
}

} // verus!
