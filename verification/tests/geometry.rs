use rx::extent::ViewExtent;
use rx::geom::{Rect, ViewCoords};
use rx::ids::{SnapshotId, ViewId};

#[test]
fn clamp_moves_point_into_rect() {
    let mut c = ViewCoords::new(-5, 20);
    c.clamp(Rect::new(0, 0, 10, 10));
    assert_eq!(c, ViewCoords::new(0, 10));
}

#[test]
fn clamp_keeps_point_inside_rect() {
    let mut c = ViewCoords::new(3, 7);
    c.clamp(Rect::new(0, 0, 10, 10));
    assert_eq!(c, ViewCoords::new(3, 7));
}

#[test]
fn clamp_on_each_edge() {
    let mut c = ViewCoords::new(11, -1);
    c.clamp(Rect::new(2, 0, 10, 10));
    assert_eq!((c.x, c.y), (10, 0));
    let mut c = ViewCoords::new(1, 12);
    c.clamp(Rect::new(2, 0, 10, 10));
    assert_eq!((c.x, c.y), (2, 10));
}

#[test]
fn clamp_to_inverted_rect_lowers_last() {
    // raised to x1 = 10, then lowered to x2 = 0
    let mut c = ViewCoords::new(5, 5);
    c.clamp(Rect::new(10, 10, 0, 0));
    assert_eq!((c.x, c.y), (0, 0));
}

#[test]
fn rect_origin() {
    assert_eq!(Rect::<u32>::origin(4, 5), Rect::new(0, 0, 4, 5));
    assert_eq!(Rect::<i32>::origin(-4, 5), Rect::new(0, 0, -4, 5));
}

#[test]
fn extent_dimensions() {
    let e = ViewExtent::new(16, 8, 3);
    assert_eq!(e.width(), 48);
    assert_eq!(e.height(), 8);
    assert_eq!(e.rect(), Rect::new(0, 0, 48, 8));
}

#[test]
fn extent_frames_lie_side_by_side() {
    let e = ViewExtent::new(16, 8, 3);
    assert_eq!(e.frame(0), Rect::new(0, 0, 16, 8));
    assert_eq!(e.frame(1), Rect::new(16, 0, 32, 8));
    assert_eq!(e.frame(2), Rect::new(32, 0, 48, 8));
    assert!(e.frame(2).x2 <= e.rect().x2);
}

#[test]
fn extent_of_no_frames_is_empty() {
    let e = ViewExtent::new(16, 8, 0);
    assert_eq!(e.width(), 0);
    assert_eq!(e.rect(), Rect::new(0, 0, 0, 8));
}

#[test]
fn view_id_default_and_text() {
    assert_eq!(ViewId::default(), ViewId(0));
    assert_eq!(ViewId(0).to_string(), "0");
    assert_eq!(ViewId(7).to_string(), "7");
    assert_eq!(ViewId(42).to_string(), "42");
    assert_eq!(ViewId(100).to_string(), "100");
    assert_eq!(ViewId(65535).to_string(), "65535");
}

#[test]
fn snapshot_id_default() {
    assert_eq!(SnapshotId::default(), SnapshotId(0));
}
