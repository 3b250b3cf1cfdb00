use dex::layout::Rect;

#[test]
fn accessors_and_area() {
    let r = Rect::new(2, 3, 10, 4);
    assert_eq!(r.left(), 2);
    assert_eq!(r.right(), 12);
    assert_eq!(r.top(), 3);
    assert_eq!(r.bottom(), 7);
    assert_eq!(r.area(), 40);
}

#[test]
fn default_is_the_zero_rectangle() {
    let r = Rect::default();
    assert_eq!(r, Rect::new(0, 0, 0, 0));
    assert_eq!(r.area(), 0);
}

#[test]
fn inner_shrinks_by_the_margin() {
    let r = Rect::new(1, 1, 10, 8);
    assert_eq!(r.inner(2), Rect::new(3, 3, 6, 4));
    // A rectangle too small for the margin collapses.
    assert_eq!(Rect::new(0, 0, 3, 10).inner(2), Rect::default());
}

#[test]
fn union_covers_both() {
    let a = Rect::new(0, 0, 4, 4);
    let b = Rect::new(2, 3, 6, 2);
    assert_eq!(a.union(&b), Rect::new(0, 0, 8, 5));
}

#[test]
fn intersection_of_overlapping_rectangles() {
    let a = Rect::new(0, 0, 4, 4);
    let b = Rect::new(2, 1, 6, 2);
    assert!(a.intersects(&b));
    assert_eq!(a.intersection(&b), Rect::new(2, 1, 2, 2));
}

#[test]
fn disjoint_rectangles_do_not_intersect() {
    let a = Rect::new(0, 0, 2, 2);
    let b = Rect::new(5, 5, 2, 2);
    assert!(!a.intersects(&b));
    // Rectangles merely touching at an edge do not intersect.
    let c = Rect::new(2, 0, 2, 2);
    assert!(!a.intersects(&c));
}
