use novluno_sdl::rect::{to_unsigned, Point, Rect, MAX_INT_VALUE, MIN_INT_VALUE};

fn r(x: i32, y: i32, w: u32, h: u32) -> Rect {
    Rect::new(x, y, w, h)
}

#[test]
fn new_keeps_ordinary_values() {
    let a = r(1, 2, 3, 4);
    assert_eq!((a.x(), a.y(), a.width(), a.height()), (1, 2, 3, 4));
}

#[test]
fn new_turns_zero_size_into_one() {
    let a = r(0, 0, 0, 0);
    assert_eq!((a.width(), a.height()), (1, 1));
}

#[test]
fn new_clamps_large_sizes_and_positions() {
    let a = r(i32::MAX, i32::MIN, u32::MAX, 2_000_000_000);
    assert_eq!(a.x(), MAX_INT_VALUE);
    assert_eq!(a.y(), MIN_INT_VALUE);
    assert_eq!(a.width(), MAX_INT_VALUE as u32);
    assert_eq!(a.height(), MAX_INT_VALUE as u32);
}

#[test]
fn offset_moves_and_keeps_size() {
    let mut a = r(10, 20, 5, 6);
    a.offset(-15, 7);
    assert_eq!(a, r(-5, 27, 5, 6));
}

#[test]
fn offset_clamps_within_range() {
    let mut a = r(MAX_INT_VALUE, 0, 1, 1);
    a.offset(100, 0);
    assert_eq!(a.x(), MAX_INT_VALUE);
}

#[test]
fn offset_pins_on_overflow() {
    let mut a = r(MIN_INT_VALUE, MAX_INT_VALUE, 1, 1);
    a.offset(i32::MIN, i32::MAX);
    assert_eq!(a.x(), i32::MIN);
    assert_eq!(a.y(), MAX_INT_VALUE);
}

#[test]
fn offset_zero_is_identity() {
    let mut a = r(-3, 9, 4, 4);
    a.offset(0, 0);
    assert_eq!(a, r(-3, 9, 4, 4));
}

#[test]
fn intersection_of_overlapping_rects() {
    let a = r(0, 0, 5, 5);
    assert_eq!(a.intersection(r(2, 2, 5, 5)), Some(r(2, 2, 3, 3)));
}

#[test]
fn intersection_of_touching_rects_is_none() {
    let a = r(0, 0, 5, 5);
    assert_eq!(a.intersection(r(5, 0, 5, 5)), None);
}

#[test]
fn intersection_with_self() {
    let a = r(3, -4, 7, 2);
    assert_eq!(a.intersection(a), Some(a));
}

#[test]
fn intersection_commutes() {
    let a = r(-10, -10, 17, 17);
    let b = r(0, 0, 32, 32);
    assert_eq!(a.intersection(b), b.intersection(a));
    assert_eq!(a.intersection(b), Some(r(0, 0, 7, 7)));
}

#[test]
fn intersection_lies_within_both() {
    let a = r(1, 1, 10, 4);
    let b = r(4, -2, 3, 20);
    let i = a.intersection(b).unwrap();
    assert_eq!(i, r(4, 1, 3, 4));
}

#[test]
fn enclose_two_points() {
    let pts = [Point::new(16, 0), Point::new(0, 16)];
    assert_eq!(Rect::from_enclose_points(&pts), Some(r(0, 0, 17, 17)));
}

#[test]
fn enclose_many_points() {
    let pts = [Point::new(3, 4), Point::new(-2, 9), Point::new(5, 1)];
    assert_eq!(Rect::from_enclose_points(&pts), Some(r(-2, 1, 8, 9)));
}

#[test]
fn enclose_no_points() {
    assert_eq!(Rect::from_enclose_points(&[]), None);
}

#[test]
fn enclose_widest_range_is_clamped() {
    let pts = [Point::new(i32::MIN, 0), Point::new(i32::MAX, 0)];
    let e = Rect::from_enclose_points(&pts).unwrap();
    assert_eq!(e.x(), MIN_INT_VALUE);
    assert_eq!(e.width(), MAX_INT_VALUE as u32);
}

#[test]
fn point_new_clamps() {
    assert_eq!(Point::new(i32::MAX, i32::MIN), Point { x: MAX_INT_VALUE, y: MIN_INT_VALUE });
}

#[test]
fn unsigned_reinterpretation() {
    assert_eq!(to_unsigned(5), 5);
    assert_eq!(to_unsigned(-1), u32::MAX);
    assert_eq!(to_unsigned(i32::MIN), 0x8000_0000);
}

#[test]
fn offset_round_trip() {
    let mut a = r(100, -50, 8, 9);
    a.offset(-300, 70);
    a.offset(300, -70);
    assert_eq!(a, r(100, -50, 8, 9));
}
