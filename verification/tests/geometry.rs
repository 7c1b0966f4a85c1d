use driftwm::geometry::{
    larger_of, saturating_difference, saturating_i32, saturating_sum, smaller_of, HalfPoint, Point,
    Rect, Size,
};

fn rect(x: i32, y: i32, w: i32, h: i32) -> Rect {
    Rect { loc: Point { x, y }, size: Size { w, h } }
}

#[test]
fn sums_saturate() {
    assert_eq!(saturating_sum(i32::MAX, 1), i32::MAX);
    assert_eq!(saturating_sum(i32::MIN, -1), i32::MIN);
    assert_eq!(saturating_sum(2, 3), 5);
    assert_eq!(saturating_difference(i32::MIN, 1), i32::MIN);
    assert_eq!(saturating_difference(i32::MAX, -1), i32::MAX);
    assert_eq!(saturating_difference(2, 3), -1);
    assert_eq!(saturating_i32(1 << 40), i32::MAX);
    assert_eq!(saturating_i32(-(1 << 40)), i32::MIN);
    assert_eq!(larger_of(2, 3), 3);
    assert_eq!(smaller_of(2, 3), 2);
}

#[test]
fn rectangles_contain_their_pixels() {
    let r = rect(10, 20, 5, 5);
    assert!(r.contains(Point { x: 10, y: 20 }));
    assert!(r.contains(Point { x: 14, y: 24 }));
    assert!(!r.contains(Point { x: 15, y: 24 }));
    assert!(!r.contains(Point { x: 14, y: 25 }));
    assert!(!r.contains(Point { x: 9, y: 20 }));
    assert!(!rect(0, 0, 0, 0).contains(Point { x: 0, y: 0 }));
}

#[test]
fn touching_rectangles_do_not_overlap() {
    let r = rect(0, 0, 10, 10);
    assert!(r.overlaps(&rect(9, 9, 10, 10)));
    assert!(!r.overlaps(&rect(10, 0, 10, 10)));
    assert!(!r.overlaps(&rect(0, -10, 10, 10)));
    assert!(rect(i32::MAX - 5, 0, 100, 10).overlaps(&rect(i32::MAX - 2, 0, 1, 1)));
}

#[test]
fn intersections_cover_what_both_cover() {
    let a = rect(0, 0, 10, 10);
    let b = rect(4, -3, 20, 8);
    let common = a.intersection(&b).unwrap();
    assert_eq!(common, rect(4, 0, 6, 5));
    for x in -2..15 {
        for y in -5..15 {
            let p = Point { x, y };
            assert_eq!(common.contains(p), a.contains(p) && b.contains(p));
        }
    }
    assert_eq!(a.intersection(&rect(10, 10, 5, 5)), None);
}

#[test]
fn corners_span_rectangles() {
    let r = Rect::from_extremities(Point { x: 2, y: 3 }, Point { x: 7, y: 4 });
    assert_eq!(r, rect(2, 3, 5, 1));
    assert_eq!(Rect::from_size(Size { w: 4, h: 5 }), rect(0, 0, 4, 5));
    assert_eq!(rect(1, 2, 4, 5).center(), HalfPoint { x2: 6, y2: 9 });
    assert_eq!(rect(-7, 0, 1, 2).center(), HalfPoint { x2: -13, y2: 2 });
}
