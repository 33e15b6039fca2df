use novluno_sdl::geometry::{Point, Rectangle};

#[test]
fn rectangle_holds_its_corners() {
    let r = Rectangle::new_from_points((-100, -100), (740, 580));
    assert!(r.contains_point(&Point::new(-100, -100)));
    assert!(r.contains_point(&Point::new(740, 580)));
    assert!(r.contains_point(&Point::new(0, 0)));
}

#[test]
fn rectangle_excludes_points_beyond() {
    let r = Rectangle::new_from_points((0, 0), (48, 24));
    assert!(!r.contains_point(&Point::new(49, 0)));
    assert!(!r.contains_point(&Point::new(0, -1)));
}

#[test]
fn rectangle_with_swapped_corners_is_empty() {
    let r = Rectangle::new_from_points((10, 10), (0, 0));
    assert!(!r.contains_point(&Point::new(5, 5)));
}
