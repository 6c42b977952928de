use qtrs_widgets::geometry::{Margins, Rect, Size};
use qtrs_widgets::layout::box_layout::{BoxLayout, ItemMetrics};
use qtrs_widgets::layout::grid_layout::GridLayout;
use qtrs_widgets::layout::{Direction, LayoutItem};
use qtrs_widgets::size_policy::{Policy, QSizePolicy};

fn metrics(w: i32, h: i32, hp: Policy, vp: Policy) -> ItemMetrics {
    ItemMetrics {
        size_hint: Size::new(w, h),
        minimum_size: Size::new(0, 0),
        maximum_size: Size::new(1000, 1000),
        size_policy: QSizePolicy::new(hp, vp),
    }
}

#[test]
fn box_layout_vertical_shares_height() {
    let mut b = BoxLayout::vertical();
    b.add_widget(1);
    b.add_widget(2);
    b.set_geometry(Rect::new(0, 0, 100, 200));
    let m = [metrics(50, 30, Policy::Preferred, Policy::Preferred); 2];
    assert_eq!(b.item_geometries(&m), vec![Rect::new(0, 0, 100, 97), Rect::new(0, 103, 100, 97)]);
    assert_eq!(b.size_hint(&m), Size::new(50, 66));
}

#[test]
fn box_layout_horizontal_with_margins_and_stretch() {
    let mut b = BoxLayout::horizontal();
    b.add_widget_with_stretch(1, 1);
    b.add_widget_with_stretch(2, 3);
    b.set_margins(Margins::new(10, 5, 10, 5));
    b.set_spacing(0);
    b.set_geometry(Rect::new(0, 0, 420, 50));
    let m = [
        metrics(20, 20, Policy::Preferred, Policy::Fixed),
        metrics(20, 20, Policy::Preferred, Policy::Preferred),
    ];
    assert_eq!(b.item_geometries(&m), vec![Rect::new(10, 5, 100, 20), Rect::new(110, 5, 300, 40)]);
    assert_eq!(b.size_hint(&m), Size::new(60, 30));
}

#[test]
fn box_layout_editing() {
    let mut b = BoxLayout::new(Direction::TopToBottom);
    assert_eq!(b.count(), 0);
    assert!(b.item_geometries(&[]).is_empty());
    assert_eq!(b.size_hint(&[]), Size::new(0, 0));
    b.add_widget(1);
    b.insert_widget(0, 2, 4);
    b.insert_widget(99, 3, 0);
    assert_eq!(
        b.items(),
        &[LayoutItem { widget: 2, stretch: 4 }, LayoutItem { widget: 1, stretch: 0 }, LayoutItem { widget: 3, stretch: 0 }]
    );
    assert_eq!(b.remove_widget(1), Some(1));
    assert_eq!(b.remove_widget(5), None);
    assert_eq!(b.count(), 2);
    b.set_direction(Direction::LeftToRight);
    assert_eq!(b.direction(), Direction::LeftToRight);
    assert_eq!(b.spacing(), 6);
}

#[test]
fn grid_layout_spanning_item() {
    let mut g = GridLayout::new();
    g.add_widget(1, 0, 0);
    g.add_widget(2, 0, 1);
    g.add_widget_with_span(3, 1, 0, 1, 2);
    assert_eq!((g.row_count(), g.column_count()), (2, 2));
    g.set_geometry(Rect::new(0, 0, 206, 100));
    let m = [metrics(50, 30, Policy::Preferred, Policy::Preferred); 3];
    assert_eq!(
        g.item_geometries(&m),
        vec![Rect::new(0, 0, 100, 47), Rect::new(106, 0, 100, 47), Rect::new(0, 53, 206, 47)]
    );
    assert_eq!(g.size_hint(&m), Size::new(106, 66));
}

#[test]
fn grid_layout_stretch_and_append() {
    let mut g = GridLayout::new();
    assert!(g.item_geometries(&[]).is_empty());
    g.add_widget(1, 0, 0);
    g.add_widget(2, 0, 1);
    g.set_column_stretch(1, 3);
    g.set_column_stretch(0, 1);
    g.set_spacing(0);
    g.set_geometry(Rect::new(0, 0, 400, 30));
    let m = [metrics(10, 30, Policy::Preferred, Policy::Fixed); 2];
    assert_eq!(g.item_geometries(&m), vec![Rect::new(0, 0, 100, 30), Rect::new(100, 0, 300, 30)]);
    g.append_widget(7);
    assert_eq!(g.items()[2].row, 1);
    assert_eq!(g.row_count(), 2);
    g.add_widget_with_span(8, 5, 0, 0, 0);
    assert_eq!(g.items()[3].row_span, 1);
    assert_eq!(g.spacing(), 0);
}
