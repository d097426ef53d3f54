use space_invaders::rect::Rect;
use space_invaders::util::{center_x, center_y, decrease_until_zero, overlaps};

#[test]
fn overlaps_is_symmetric() {
    let a = Rect::new(0, 0, 10, 10);
    let b = Rect::new(5, 5, 10, 10);
    let c = Rect::new(30, 0, 4, 4);
    assert!(overlaps(&a, &b));
    assert!(overlaps(&b, &a));
    assert!(!overlaps(&a, &c));
    assert!(!overlaps(&c, &a));
}

#[test]
fn nonzero_rect_overlaps_itself() {
    let a = Rect::new(-7, 12, 3, 1);
    assert!(overlaps(&a, &a));
}

#[test]
fn zero_width_rect_does_not_overlap_itself() {
    let a = Rect::new(4, 4, 0, 5);
    assert!(!overlaps(&a, &a));
}

#[test]
fn touching_edges_do_not_overlap() {
    let a = Rect::new(0, 0, 10, 10);
    let right = Rect::new(10, 0, 10, 10);
    let below = Rect::new(0, 10, 10, 10);
    assert!(!overlaps(&a, &right));
    assert!(!overlaps(&a, &below));
    let one_in = Rect::new(9, 9, 10, 10);
    assert!(overlaps(&a, &one_in));
}

#[test]
fn overlaps_near_the_integer_limits() {
    let a = Rect::new(i32::MAX - 1, i32::MAX - 1, u32::MAX, u32::MAX);
    let b = Rect::new(i32::MAX, i32::MAX, 1, 1);
    assert!(overlaps(&a, &b));
    assert!(overlaps(&b, &a));
}

#[test]
fn center_values() {
    assert_eq!(center_x(100), 1920 - 100 - 50);
    assert_eq!(center_y(100), 1080 - 100 - 50);
    assert_eq!(center_x(7), 1920 - 7 - 3);
    assert_eq!(center_x(-7), 1920 + 7 + 3);
    assert_eq!(center_y(0), 1080);
}

#[test]
fn decrease_until_zero_values() {
    assert_eq!(decrease_until_zero(50, 12, 0), 38);
    assert_eq!(decrease_until_zero(2, 12, 0), 0);
    assert_eq!(decrease_until_zero(12, 12, 0), 0);
    assert_eq!(decrease_until_zero(5, 15, 1), 1);
    assert_eq!(decrease_until_zero(35, 15, 1), 20);
}
