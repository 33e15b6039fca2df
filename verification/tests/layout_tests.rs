use novluno_sdl::layout::{can_lay_out, next_tile, TILE_HEIGHT, TILE_WIDTH};

#[test]
fn next_tile_advances_column() {
    let (mut x, mut y) = (0, 0);
    next_tile(&mut x, &mut y, 3);
    assert_eq!((x, y), (1, 0));
}

#[test]
fn next_tile_wraps_at_stride() {
    let (mut x, mut y) = (2, 5);
    next_tile(&mut x, &mut y, 3);
    assert_eq!((x, y), (0, 6));
}

#[test]
fn steps_visit_tiles_in_row_order() {
    let stride = 4;
    let (mut x, mut y) = (0, 0);
    for k in 0..23 {
        assert_eq!((x, y), (k % stride, k / stride));
        next_tile(&mut x, &mut y, stride);
    }
}

#[test]
fn non_positive_stride_gives_one_tile_per_row() {
    for stride in [0, -3, 1] {
        let (mut x, mut y) = (0, 0);
        for k in 0..5 {
            assert_eq!((x, y), (0, k));
            next_tile(&mut x, &mut y, stride);
        }
    }
}

#[test]
fn tile_size() {
    assert_eq!((TILE_WIDTH, TILE_HEIGHT), (48, 24));
}

#[test]
fn layout_fit_limits() {
    assert!(can_lay_out(100, 0));
    assert!(can_lay_out(100, 10_000));
    assert!(can_lay_out(44_739_243, 44_739_243));
    assert!(!can_lay_out(44_739_244, 44_739_244));
    assert!(can_lay_out(0, 89_478_486));
    assert!(!can_lay_out(0, 89_478_487));
}

#[test]
fn next_tile_within_last_row() {
    let (mut x, mut y) = (0, i32::MAX);
    next_tile(&mut x, &mut y, 3);
    assert_eq!((x, y), (1, i32::MAX));
}
