use novluno_sdl::render::{
    Color, DrawCommand, ImagePart, MapScene, MapTile, MapView, Sprite,
};
use novluno_sdl::rect::Rect;
use novluno_sdl::sdl::Sdl;

fn rect(x: i32, y: i32, w: u32, h: u32) -> Rect {
    Rect::new(x, y, w, h)
}

fn sprite(texture: usize, x_off: i32, y_off: i32) -> Sprite {
    Sprite { texture, x_dim: 32, y_dim: 32, x_off, y_off }
}

fn image(sprites: Vec<Sprite>) -> ImagePart {
    ImagePart {
        source_x1: 0,
        source_y1: 0,
        source_x2: 48,
        source_y2: 24,
        dest_x: 0,
        dest_y: 0,
        sprites,
    }
}

fn object(sprites: Vec<Sprite>) -> ImagePart {
    ImagePart {
        source_x1: 0,
        source_y1: 0,
        source_x2: 16,
        source_y2: 16,
        dest_x: 5,
        dest_y: 6,
        sprites,
    }
}

fn tile(collision: u8, tiles: Vec<ImagePart>, objects: Vec<ImagePart>) -> MapTile {
    MapTile { collision, tile_images: tiles, object_images: objects }
}

fn view(mouse_x: i32, mouse_y: i32) -> MapView {
    MapView { window_width: 640, window_height: 480, map_off_x: 0, map_off_y: 0, mouse_x, mouse_y }
}

fn small_view(mouse_x: i32, mouse_y: i32) -> MapView {
    MapView { window_width: 100, window_height: 100, ..view(mouse_x, mouse_y) }
}

fn copy(texture: usize, src: Rect, dst: Rect) -> DrawCommand {
    DrawCommand::CopyTexture { texture, src, dst }
}

fn three_tile_scene() -> MapScene {
    MapScene {
        stride: 2,
        tiles: vec![
            tile(0, vec![image(vec![sprite(7, 0, 0)])], vec![]),
            tile(1, vec![image(vec![sprite(8, 0, 0)])], vec![]),
            tile(0, vec![image(vec![sprite(9, 0, 0)])], vec![]),
        ],
    }
}

#[test]
fn view_bounds_of_window() {
    let s = Sdl::new(640, 480);
    let b = s.view_bounds(&MapView { map_off_x: 10, map_off_y: -20, ..view(0, 0) });
    assert_eq!((b.x1, b.y1, b.x2, b.y2), (-110, -80, 740, 580));
}

#[test]
fn visible_tiles_in_first_row() {
    let s = Sdl::new(640, 480);
    let visible = s.visible_tiles(&view(0, 0), 20, 20);
    assert_eq!(visible, (0..16).collect::<Vec<usize>>());
}

#[test]
fn visible_tiles_follow_scroll() {
    let s = Sdl::new(640, 480);
    let v = MapView { map_off_x: -600, ..view(0, 0) };
    let visible = s.visible_tiles(&v, 20, 20);
    // The left edge moves with the scroll offset; the right edge stays at
    // the window width plus the margin.
    assert_eq!(visible, (11..16).collect::<Vec<usize>>());
}

#[test]
fn tiles_are_drawn_in_layout_order() {
    let s = Sdl::new(640, 480);
    let cmds = s.render_map_tiles(&view(1000, 1000), &three_tile_scene());
    assert_eq!(
        cmds,
        vec![
            copy(7, rect(0, 0, 48, 24), rect(0, 0, 48, 24)),
            copy(8, rect(0, 0, 48, 24), rect(48, 0, 48, 24)),
            copy(9, rect(0, 0, 48, 24), rect(0, 24, 48, 24)),
        ]
    );
}

#[test]
fn tile_under_mouse_is_outlined_by_collision() {
    let s = Sdl::new(640, 480);
    let cmds = s.render_map_tiles(&view(10, 10), &three_tile_scene());
    assert_eq!(
        cmds,
        vec![
            copy(7, rect(0, 0, 48, 24), rect(0, 0, 48, 24)),
            DrawCommand::SetDrawColor(Color { r: 255, g: 10, b: 10 }),
            DrawCommand::DrawRect(rect(0, 0, 48, 24)),
            copy(8, rect(0, 0, 48, 24), rect(48, 0, 48, 24)),
            copy(9, rect(0, 0, 48, 24), rect(0, 24, 48, 24)),
        ]
    );
}

#[test]
fn colliding_tile_outline_is_green() {
    let s = Sdl::new(640, 480);
    let scene = MapScene { stride: 1, tiles: vec![tile(3, vec![image(vec![sprite(1, 0, 0)])], vec![])] };
    let cmds = s.render_map_tiles(&view(0, 0), &scene);
    assert_eq!(cmds[1], DrawCommand::SetDrawColor(Color { r: 10, g: 255, b: 10 }));
}

#[test]
fn tiles_out_of_view_are_skipped() {
    let s = Sdl::new(640, 480);
    let mut tiles = Vec::new();
    for i in 0..10 {
        tiles.push(tile(0, vec![image(vec![sprite(i, 0, 0)])], vec![]));
    }
    let scene = MapScene { stride: 10, tiles };
    let cmds = s.render_map_tiles(&small_view(-1000, -1000), &scene);
    // 100 + 100 = 200 is the right edge: columns at 0, 48, 96, 144, 192 are in view.
    assert_eq!(cmds.len(), 5);
    assert_eq!(cmds[4], copy(4, rect(0, 0, 48, 24), rect(192, 0, 48, 24)));
}

#[test]
fn tile_source_of_inverted_region_is_clamped() {
    let s = Sdl::new(640, 480);
    let mut img = image(vec![sprite(2, 0, 0)]);
    img.source_x1 = 10;
    img.source_x2 = 4;
    let scene = MapScene { stride: 1, tiles: vec![tile(0, vec![img], vec![])] };
    let cmds = s.render_map_tiles(&view(1000, 1000), &scene);
    assert_eq!(cmds, vec![copy(2, rect(10, 0, u32::MAX, 24), rect(0, 0, 48, 24))]);
}

#[test]
fn object_inside_picture() {
    let s = Sdl::new(640, 480);
    let scene = MapScene { stride: 1, tiles: vec![tile(0, vec![], vec![object(vec![sprite(4, 0, 0)])])] };
    let cmds = s.render_map_objects(&view(1000, 1000), &scene);
    assert_eq!(cmds, vec![copy(4, rect(0, 0, 17, 17), rect(5, 6, 17, 17))]);
}

#[test]
fn object_cut_to_picture_is_shifted() {
    let s = Sdl::new(640, 480);
    let scene = MapScene { stride: 1, tiles: vec![tile(0, vec![], vec![object(vec![sprite(4, 10, 10)])])] };
    let cmds = s.render_map_objects(&view(1000, 1000), &scene);
    assert_eq!(cmds, vec![copy(4, rect(0, 0, 7, 7), rect(15, 16, 7, 7))]);
}

#[test]
fn object_outside_picture_is_copied_whole() {
    let s = Sdl::new(640, 480);
    let scene = MapScene { stride: 1, tiles: vec![tile(0, vec![], vec![object(vec![sprite(4, -100, -100)])])] };
    let cmds = s.render_map_objects(&view(1000, 1000), &scene);
    assert_eq!(cmds, vec![copy(4, rect(100, 100, 17, 17), rect(5, 6, 17, 17))]);
}

#[test]
fn object_under_mouse_is_outlined_with_its_tile() {
    let s = Sdl::new(640, 480);
    let scene = MapScene { stride: 1, tiles: vec![tile(0, vec![], vec![object(vec![sprite(4, 0, 0)])])] };
    let cmds = s.render_map_objects(&view(10, 10), &scene);
    assert_eq!(
        cmds,
        vec![
            copy(4, rect(0, 0, 17, 17), rect(5, 6, 17, 17)),
            DrawCommand::SetDrawColor(Color { r: 10, g: 10, b: 255 }),
            DrawCommand::DrawRect(rect(5, 6, 17, 17)),
            DrawCommand::SetDrawColor(Color { r: 100, g: 10, b: 10 }),
            DrawCommand::DrawRect(rect(0, 0, 48, 24)),
        ]
    );
}

#[test]
fn objects_scroll_with_map() {
    let s = Sdl::new(640, 480);
    let scene = MapScene {
        stride: 2,
        tiles: vec![
            tile(0, vec![], vec![]),
            tile(0, vec![], vec![object(vec![sprite(4, 0, 0), sprite(5, 0, 0)])]),
        ],
    };
    let v = MapView { map_off_x: 3, map_off_y: -2, ..view(1000, 1000) };
    let cmds = s.render_map_objects(&v, &scene);
    assert_eq!(
        cmds,
        vec![
            copy(4, rect(0, 0, 17, 17), rect(56, 4, 17, 17)),
            copy(5, rect(0, 0, 17, 17), rect(56, 4, 17, 17)),
        ]
    );
}

#[test]
fn frame_clears_draws_and_presents() {
    let s = Sdl::new(640, 480);
    let scene = MapScene {
        stride: 1,
        tiles: vec![tile(0, vec![image(vec![sprite(1, 0, 0)])], vec![object(vec![sprite(2, 0, 0)])])],
    };
    let cmds = s.render(&view(1000, 1000), &scene);
    assert_eq!(
        cmds,
        vec![
            DrawCommand::SetDrawColor(Color { r: 75, g: 100, b: 255 }),
            DrawCommand::Clear,
            copy(1, rect(0, 0, 48, 24), rect(0, 0, 48, 24)),
            copy(2, rect(0, 0, 17, 17), rect(5, 6, 17, 17)),
            DrawCommand::Present,
        ]
    );
}

#[test]
fn empty_map_frame() {
    let s = Sdl::new(640, 480);
    let scene = MapScene { stride: 0, tiles: vec![] };
    assert_eq!(
        s.render(&view(0, 0), &scene),
        vec![
            DrawCommand::SetDrawColor(Color { r: 75, g: 100, b: 255 }),
            DrawCommand::Clear,
            DrawCommand::Present,
        ]
    );
}

#[test]
fn hidden_tiles_do_not_change_frame() {
    let s = Sdl::new(640, 480);
    let mut a = Vec::new();
    let mut b = Vec::new();
    for i in 0..10 {
        a.push(tile(0, vec![image(vec![sprite(i, 0, 0)])], vec![]));
        let t = if i < 5 { i } else { 99 };
        b.push(tile(0, vec![image(vec![sprite(t, 0, 0)])], vec![]));
    }
    let v = small_view(1000, 1000);
    let sa = MapScene { stride: 10, tiles: a };
    let sb = MapScene { stride: 10, tiles: b };
    assert_eq!(s.render(&v, &sa), s.render(&v, &sb));
}

#[test]
fn scene_fit_test() {
    let s = Sdl::new(640, 480);
    assert!(s.can_render(&view(0, 0), &three_tile_scene()));
    let mut img = image(vec![sprite(1, 0, 0)]);
    img.source_x1 = i32::MIN;
    img.source_x2 = 1;
    let bad = MapScene { stride: 1, tiles: vec![tile(0, vec![img.clone()], vec![])] };
    assert!(!s.can_render(&view(0, 0), &bad));
    // The same image out of view does not matter.
    let far = MapScene {
        stride: 0,
        tiles: (0..30).map(|i| tile(0, if i == 29 { vec![img.clone()] } else { vec![] }, vec![])).collect(),
    };
    assert!(s.can_render(&view(0, 0), &far));
    let big = MapView { window_width: u32::MAX, ..view(0, 0) };
    assert!(!s.can_render(&big, &three_tile_scene()));
}

#[test]
fn object_far_left_of_picture_is_copied_whole() {
    let s = Sdl::new(640, 480);
    let mut obj = object(vec![Sprite { texture: 0, x_dim: 32, y_dim: 32, x_off: 0, y_off: 0 }]);
    obj.source_x1 = i32::MIN;
    obj.source_x2 = 10;
    let scene = MapScene { stride: 1, tiles: vec![tile(0, vec![], vec![obj])] };
    assert!(s.can_render(&view(1000, 1000), &scene));
    let cmds = s.render_map_objects(&view(1000, 1000), &scene);
    assert_eq!(cmds, vec![copy(0, rect(i32::MIN, 0, u32::MAX, 17), rect(5, 6, u32::MAX, 17))]);
}

#[test]
fn culling_uses_the_window_constants_of_the_view() {
    // The window the client state was opened with does not decide culling.
    let s = Sdl::new(2000, 2000);
    let mut tiles = Vec::new();
    for i in 0..10 {
        tiles.push(tile(0, vec![image(vec![sprite(i, 0, 0)])], vec![]));
    }
    let scene = MapScene { stride: 10, tiles };
    assert_eq!(s.visible_tiles(&small_view(0, 0), 10, 10), vec![0, 1, 2, 3, 4]);
    assert_eq!(s.render_map_tiles(&small_view(-1000, -1000), &scene).len(), 5);
}
