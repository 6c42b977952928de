use qtrs_widgets::frame::{Frame, FrameShadow, FrameShape};
use qtrs_widgets::geometry::Rect;
use qtrs_widgets::size_policy::{Policy, QSizePolicy};

#[test]
fn new_frame_has_no_frame() {
    let f = Frame::new();
    assert_eq!(f.frame_shape(), FrameShape::NoFrame);
    assert_eq!(f.frame_shadow(), FrameShadow::Plain);
    assert_eq!(f.line_width(), 1);
    assert_eq!(f.mid_line_width(), 0);
    assert_eq!(f.frame_width(), 0);
    assert_eq!(f.size_policy(), QSizePolicy::new(Policy::Preferred, Policy::Preferred));
}

#[test]
fn lines_get_line_policies() {
    let mut f = Frame::with_style(FrameShape::HLine, FrameShadow::Sunken);
    assert_eq!(f.size_policy(), QSizePolicy::new(Policy::Minimum, Policy::Fixed));
    assert_eq!(f.frame_width(), 2);
    f.set_frame_shape(FrameShape::VLine);
    assert_eq!(f.frame_shadow(), FrameShadow::Sunken);
    assert_eq!(f.size_policy(), QSizePolicy::new(Policy::Fixed, Policy::Minimum));
    f.set_frame_shape(FrameShape::Box);
    assert_eq!(f.size_policy(), QSizePolicy::new(Policy::Preferred, Policy::Preferred));
}

#[test]
fn contents_inset_by_frame_width() {
    let mut f = Frame::with_style(FrameShape::Box, FrameShadow::Raised);
    f.set_geometry(Rect::new(5, 5, 100, 50));
    f.set_line_width(2);
    f.set_mid_line_width(1);
    assert_eq!(f.frame_width(), 5);
    assert_eq!(f.frame_rect(), Rect::new(0, 0, 100, 50));
    assert_eq!(f.contents_rect(), Rect::new(5, 5, 90, 40));
    f.set_frame_rect(Some(Rect::new(10, 10, 8, 8)));
    assert_eq!(f.contents_rect(), Rect::new(15, 15, 0, 0));
    f.set_frame_rect(None);
    assert_eq!(f.frame_rect(), Rect::new(0, 0, 100, 50));
    f.set_line_width(-4);
    assert_eq!(f.line_width(), 0);
    assert_eq!(f.frame_width(), 1);
}

#[test]
fn frame_style_bits_round_trip() {
    let mut f = Frame::new();
    f.set_frame_style(FrameShape::Panel.bits() | FrameShadow::Sunken.bits());
    assert_eq!(f.frame_shape(), FrameShape::Panel);
    assert_eq!(f.frame_shadow(), FrameShadow::Sunken);
    assert_eq!(f.frame_style(), FrameShape::Panel.bits() | FrameShadow::Sunken.bits());
    f.set_frame_shadow(FrameShadow::Raised);
    assert_eq!(f.frame_shape(), FrameShape::Panel);
    assert_eq!(f.frame_params().shadow, FrameShadow::Raised);
}

use qtrs_widgets::frame::{FramePaintOp, FrameRole, FrameStyle};

fn ring(inset: i32, top_left: FrameRole, bottom_right: FrameRole) -> FramePaintOp {
    FramePaintOp::Ring { inset, top_left, bottom_right }
}

#[test]
fn paint_sunken_box_is_etched() {
    let mut s = FrameStyle::new(FrameShape::Box, FrameShadow::Sunken);
    s.line_width = 2;
    s.mid_line_width = 1;
    let ops = s.paint(Rect::new(0, 0, 40, 30));
    assert_eq!(
        ops,
        vec![
            ring(0, FrameRole::Dark, FrameRole::Light),
            ring(1, FrameRole::Dark, FrameRole::Light),
            ring(2, FrameRole::Mid, FrameRole::Mid),
            ring(3, FrameRole::Light, FrameRole::Dark),
            ring(4, FrameRole::Light, FrameRole::Dark),
        ]
    );
}

#[test]
fn paint_plain_panel_and_win_panel() {
    let mut s = FrameStyle::new(FrameShape::Panel, FrameShadow::Plain);
    s.line_width = 2;
    let ops = s.paint(Rect::new(0, 0, 10, 10));
    assert_eq!(ops, vec![ring(0, FrameRole::WindowText, FrameRole::WindowText), ring(1, FrameRole::WindowText, FrameRole::WindowText)]);
    let w = FrameStyle::new(FrameShape::WinPanel, FrameShadow::Raised);
    assert_eq!(
        w.paint(Rect::new(0, 0, 10, 10)),
        vec![ring(0, FrameRole::Light, FrameRole::Shadow), ring(1, FrameRole::Midlight, FrameRole::Dark)]
    );
    let st = FrameStyle::new(FrameShape::StyledPanel, FrameShadow::Sunken);
    assert_eq!(
        st.paint(Rect::new(0, 0, 10, 10)),
        vec![ring(0, FrameRole::Mid, FrameRole::Mid), ring(1, FrameRole::Midlight, FrameRole::Light)]
    );
}

#[test]
fn paint_sunken_hline_is_centred() {
    let s = FrameStyle::new(FrameShape::HLine, FrameShadow::Sunken);
    // Thickness 2 in a 10-pixel-high rectangle: bands start 4 pixels down.
    let ops = s.paint(Rect::new(5, 20, 100, 10));
    assert_eq!(
        ops,
        vec![
            FramePaintOp::Band { rect: Rect::new(5, 24, 100, 1), role: FrameRole::Dark },
            FramePaintOp::Band { rect: Rect::new(5, 25, 100, 1), role: FrameRole::Light },
        ]
    );
    let v = FrameStyle::new(FrameShape::VLine, FrameShadow::Plain);
    assert_eq!(
        v.paint(Rect::new(0, 0, 7, 30)),
        vec![FramePaintOp::Band { rect: Rect::new(3, 0, 1, 30), role: FrameRole::WindowText }]
    );
}

#[test]
fn paint_thick_line_in_thin_rect_starts_above() {
    let mut s = FrameStyle::new(FrameShape::HLine, FrameShadow::Plain);
    s.line_width = 5;
    // (2 - 5) / 2 rounds toward zero to -1.
    assert_eq!(
        s.paint(Rect::new(0, 10, 8, 2)),
        vec![FramePaintOp::Band { rect: Rect::new(0, 9, 8, 5), role: FrameRole::WindowText }]
    );
}

#[test]
fn paint_nothing_for_empty_rect_or_no_frame() {
    let s = FrameStyle::new(FrameShape::Box, FrameShadow::Plain);
    assert!(s.paint(Rect::new(0, 0, 0, 10)).is_empty());
    assert!(FrameStyle::new(FrameShape::NoFrame, FrameShadow::Raised).paint(Rect::new(0, 0, 10, 10)).is_empty());
}
