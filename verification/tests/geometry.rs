use cell_automata::rect::{Rect, MAX_COORD, MIN_COORD};
use cell_automata::torus::wrap_index;

#[test]
fn rect_keeps_values_within_limits() {
    let r = Rect::new(1, 2, 3, 4);
    assert_eq!(r, Rect { x: 1, y: 2, w: 3, h: 4 });
    let r = Rect::new(-7, 0, 1, MAX_COORD as u32);
    assert_eq!(r, Rect { x: -7, y: 0, w: 1, h: MAX_COORD as u32 });
}

#[test]
fn rect_clamps_positions() {
    let r = Rect::new(i32::MAX, i32::MIN, 1, 1);
    assert_eq!(r.x, 1073741823);
    assert_eq!(r.y, -1073741824);
    let r = Rect::new(MAX_COORD + 1, MIN_COORD - 1, 1, 1);
    assert_eq!(r.x, MAX_COORD);
    assert_eq!(r.y, MIN_COORD);
}

#[test]
fn rect_clamps_sizes() {
    let r = Rect::new(0, 0, 0, 0);
    assert_eq!(r.w, 1);
    assert_eq!(r.h, 1);
    let r = Rect::new(0, 0, u32::MAX, 1073741824);
    assert_eq!(r.w, 1073741823);
    assert_eq!(r.h, 1073741823);
}

#[test]
fn rect_contains_left_and_top_sides_only() {
    let r = Rect::new(1, 2, 3, 4);
    assert!(r.contains_point(1, 2));
    assert!(!r.contains_point(0, 1));
    assert!(r.contains_point(3, 5));
    assert!(!r.contains_point(4, 6));
    assert!(!r.contains_point(4, 2));
    assert!(!r.contains_point(1, 6));
    assert!(!r.contains_point(0, 2));
    assert!(!r.contains_point(1, 1));
}

#[test]
fn rect_contains_point_at_the_limits() {
    let r = Rect { x: i32::MAX, y: i32::MAX, w: u32::MAX, h: u32::MAX };
    assert!(r.contains_point(i32::MAX, i32::MAX));
    assert!(!r.contains_point(i32::MAX - 1, i32::MAX));
    let r = Rect::new(MAX_COORD, MAX_COORD, MAX_COORD as u32, MAX_COORD as u32);
    assert!(r.contains_point(i32::MAX - 2, i32::MAX - 2));
    assert!(!r.contains_point(i32::MAX - 1, i32::MAX - 2));
}

#[test]
fn wrap_index_is_the_mathematical_remainder() {
    assert_eq!(wrap_index(0, 5), 0);
    assert_eq!(wrap_index(4, 5), 4);
    assert_eq!(wrap_index(5, 5), 0);
    assert_eq!(wrap_index(6, 5), 1);
    assert_eq!(wrap_index(12, 5), 2);
    assert_eq!(wrap_index(-1, 5), 4);
    assert_eq!(wrap_index(-2, 5), 3);
    assert_eq!(wrap_index(-5, 5), 0);
    assert_eq!(wrap_index(-6, 5), 4);
    assert_eq!(wrap_index(-11, 5), 4);
    assert_eq!(wrap_index(7, 1), 0);
    assert_eq!(wrap_index(-7, 1), 0);
}

#[test]
fn wrap_index_at_the_ends_of_the_range() {
    assert_eq!(wrap_index(isize::MAX, 2), 1);
    assert_eq!(wrap_index(isize::MIN, 2), 0);
    assert_eq!(wrap_index(isize::MIN, 3), 1);
    assert_eq!(wrap_index(-1, usize::MAX), usize::MAX - 1);
}
