use trezor_canvas::geometry::{max_i16, min_i16, Insets, Offset, Point, Rect};
use trezor_canvas::viewport::Viewport;

#[test]
fn intersect_is_commutative_and_idempotent() {
    let a = Rect::new(Point::new(0, 0), Point::new(10, 10));
    let b = Rect::new(Point::new(5, -3), Point::new(20, 7));
    assert_eq!(a.intersect(b), b.intersect(a));
    assert_eq!(a.intersect(a), a);
    assert_eq!(a.intersect(b), Rect::new(Point::new(5, 0), Point::new(10, 7)));
}

#[test]
fn intersect_of_disjoint_rects_is_empty() {
    let a = Rect::new(Point::new(0, 0), Point::new(10, 10));
    let b = Rect::new(Point::new(10, 0), Point::new(20, 10));
    assert!(a.intersect(b).is_empty());
    assert!(!a.has_intersection(b));
    let c = Rect::new(Point::new(3, 20), Point::new(8, 30));
    assert!(a.intersect(c).is_empty());
    assert!(!a.has_intersection(c));
    let d = Rect::new(Point::new(9, 9), Point::new(11, 11));
    assert!(a.has_intersection(d));
    assert!(!a.intersect(d).is_empty());
}

#[test]
fn empty_rule_is_x0_ge_x1_or_y0_ge_y1() {
    assert!(Rect::from_size(Offset::new(3, 0)).is_empty());
    assert!(Rect::from_size(Offset::new(0, 3)).is_empty());
    assert!(Rect::new(Point::new(5, 5), Point::new(4, 9)).is_empty());
    assert!(!Rect::from_size(Offset::new(1, 1)).is_empty());
    assert!(Rect::zero().is_empty());
}

#[test]
fn rect_constructors_and_accessors() {
    let r = Rect::from_top_left_and_size(Point::new(3, 4), Offset::new(10, 20));
    assert_eq!(r, Rect { x0: 3, y0: 4, x1: 13, y1: 24 });
    assert_eq!(r.width(), 10);
    assert_eq!(r.height(), 20);
    assert_eq!(r.size(), Offset::new(10, 20));
    assert_eq!(r.top_left(), Point::new(3, 4));
    assert_eq!(r.bottom_right(), Point::new(13, 24));
    assert_eq!(Rect::from_size(Offset::new(7, 9)), Rect { x0: 0, y0: 0, x1: 7, y1: 9 });
    assert!(r.contains(Point::new(3, 4)));
    assert!(r.contains(Point::new(12, 23)));
    assert!(!r.contains(Point::new(13, 4)));
    assert!(!r.contains(Point::new(3, 24)));
}

#[test]
fn rect_translate_and_inset() {
    let r = Rect { x0: 1, y0: 2, x1: 11, y1: 12 };
    assert_eq!(r.translate(Offset::new(-5, 7)), Rect { x0: -4, y0: 9, x1: 6, y1: 19 });
    assert_eq!(r.inset(Insets::uniform(2)), Rect { x0: 3, y0: 4, x1: 9, y1: 10 });
    assert_eq!(r.inset(Insets::new(1, 2, 3, 4)), Rect { x0: 5, y0: 3, x1: 9, y1: 9 });
}

#[test]
fn point_and_offset_arithmetic() {
    let p = Point::new(5, -7);
    assert_eq!(p.translate(Offset::new(2, 3)), Point::new(7, -4));
    assert_eq!(p.neg(), Point::new(-5, 7));
    assert_eq!(p.offset_from(Point::new(1, 1)), Offset::new(4, -8));
    assert_eq!(p.to_offset(), Offset::new(5, -7));
    assert_eq!(Offset::new(5, -7).to_point(), p);
    assert_eq!(p.onleft(), Point::new(4, -7));
    assert_eq!(p.onright(), Point::new(6, -7));
    assert_eq!(p.above(), Point::new(5, -8));
    assert_eq!(p.under(), Point::new(5, -6));
    assert_eq!(Offset::uniform(3), Offset::new(3, 3));
    assert_eq!(Offset::new(1, 2).add_offset(Offset::new(10, 20)), Offset::new(11, 22));
    assert_eq!(Offset::new(1, -2).neg(), Offset::new(-1, 2));
    assert_eq!(Offset::zero(), Offset::new(0, 0));
    assert_eq!(Point::zero(), Point::new(0, 0));
    assert_eq!(max_i16(3, -4), 3);
    assert_eq!(min_i16(3, -4), -4);
}

#[test]
fn viewport_contains_means_wholly_inside() {
    let vp = Viewport::from_size(Offset::new(100, 50)).with_origin(Offset::new(10, 10));
    // moved to (10,10)-(30,30): inside
    assert!(vp.contains(Rect { x0: 0, y0: 0, x1: 20, y1: 20 }));
    // moved to (90,10)-(110,30): sticks out on the right
    assert!(!vp.contains(Rect { x0: 80, y0: 0, x1: 100, y1: 20 }));
    // wholly outside
    assert!(!vp.contains(Rect { x0: 200, y0: 0, x1: 220, y1: 20 }));
    // an empty rectangle is never contained
    assert!(!vp.contains(Rect { x0: 5, y0: 5, x1: 5, y1: 9 }));
    // exactly the clip
    assert!(vp.contains(Rect { x0: -10, y0: -10, x1: 90, y1: 40 }));
}

#[test]
fn viewport_children_never_exceed_the_parent() {
    let parent = Viewport::new(Rect { x0: 10, y0: 10, x1: 60, y1: 40 }).with_origin(Offset::new(10, 10));
    let c = parent.relative_clip(Rect { x0: -20, y0: 5, x1: 30, y1: 100 });
    assert_eq!(c.clip, Rect { x0: 10, y0: 15, x1: 40, y1: 40 });
    assert_eq!(c.origin, Offset::new(10, 10));
    let w = parent.relative_window(Rect { x0: 5, y0: 5, x1: 100, y1: 100 });
    assert_eq!(w.clip, Rect { x0: 15, y0: 15, x1: 60, y1: 40 });
    assert_eq!(w.origin, Offset::new(15, 15));
    let a = parent.absolute_clip(Rect { x0: 0, y0: 0, x1: 20, y1: 20 });
    assert_eq!(a.clip, Rect { x0: 10, y0: 10, x1: 20, y1: 20 });
    assert_eq!(a.origin, Offset::new(10, 10));
    let t = parent.translate(Offset::new(-10, 5));
    assert_eq!(t.clip, Rect { x0: 0, y0: 15, x1: 50, y1: 45 });
    assert_eq!(t.origin, Offset::new(0, 15));
    assert_eq!(Viewport::from_size(Offset::new(4, 5)).clip, Rect { x0: 0, y0: 0, x1: 4, y1: 5 });
}
