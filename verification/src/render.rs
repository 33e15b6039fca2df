//! Drawing the map: which tiles are in view, and the draw commands for the
//! tile images and the object images placed on them.
use vstd::prelude::*;
use crate::geometry::{Point, Rectangle};
use crate::layout::{
    layout_fits, can_lay_out, lemma_first_tile, lemma_next_tile_step,
    lemma_position_bounds, next_tile, tile_position, TILE_HEIGHT, TILE_WIDTH,
};
use crate::rect::{
    as_unsigned, lemma_overlap_intersects, max_int, min_int, to_unsigned, Point as ScreenPoint, Rect,
    MAX_INT_VALUE, MIN_INT_VALUE,
};
use crate::sdl::Sdl;

verus! {

/// How far beyond the window edges tiles still count as in view.
pub const VIEW_MARGIN: i32 = 100;

/// A drawing color.
#[derive(Clone, Copy, Debug, PartialEq, Eq, Structural)]
pub struct Color {
    pub r: u8,
    pub g: u8,
    pub b: u8,
}

/// The color the frame is cleared with.
pub open spec fn background_color() -> Color {
    Color { r: 75, g: 100, b: 255 }
}

/// The outline color of a tile under the mouse: red for a tile without
/// collision, green for one with.
pub open spec fn collision_color(collision: u8) -> Color {
    if collision == 0 {
        Color { r: 255, g: 10, b: 10 }
    } else {
        Color { r: 10, g: 255, b: 10 }
    }
}

/// The outline color of an object image under the mouse.
pub open spec fn object_outline_color() -> Color {
    Color { r: 10, g: 10, b: 255 }
}

/// The outline color of the tile an object stands on, under the mouse.
pub open spec fn tile_outline_color() -> Color {
    Color { r: 100, g: 10, b: 10 }
}

/// One drawing step on the window's canvas.
#[derive(Clone, Copy, Debug, PartialEq, Eq, Structural)]
pub enum DrawCommand {
    /// Set the color for clearing and outlines.
    SetDrawColor(Color),
    /// Fill the canvas with the draw color.
    Clear,
    /// Copy the `src` part of texture `texture` onto `dst`.
    CopyTexture { texture: usize, src: Rect, dst: Rect },
    /// Outline a rectangle in the draw color.
    DrawRect(Rect),
    /// Show the frame.
    Present,
}

/// A sprite an image draws: the texture it was loaded into, the size of
/// its picture, and the offset of the picture within the sprite sheet.
#[derive(Clone, Copy, Debug, PartialEq, Eq, Structural)]
pub struct Sprite {
    pub texture: usize,
    pub x_dim: u32,
    pub y_dim: u32,
    pub x_off: i32,
    pub y_off: i32,
}

/// One image of a resource entry: the source region, the offset at which
/// it is placed, and the sprites of its image ids, in order.
#[derive(Clone, Debug)]
pub struct ImagePart {
    pub source_x1: i32,
    pub source_y1: i32,
    pub source_x2: i32,
    pub source_y2: i32,
    pub dest_x: i32,
    pub dest_y: i32,
    pub sprites: Vec<Sprite>,
}

/// A map tile with the images of its tile entry and of its object entry
/// (empty where the tile has no such entry or it could not be found).
#[derive(Clone, Debug)]
pub struct MapTile {
    pub collision: u8,
    pub tile_images: Vec<ImagePart>,
    pub object_images: Vec<ImagePart>,
}

/// The tiles of a map in order, `stride` tiles to a row.
#[derive(Clone, Debug)]
pub struct MapScene {
    pub stride: i32,
    pub tiles: Vec<MapTile>,
}

/// Where the map is scrolled to, where the mouse is, and the client's
/// window size constants that tiles are kept in view against.
#[derive(Clone, Copy, Debug, PartialEq, Eq, Structural)]
pub struct MapView {
    pub window_width: u32,
    pub window_height: u32,
    pub map_off_x: i32,
    pub map_off_y: i32,
    pub mouse_x: i32,
    pub mouse_y: i32,
}

/// The window size constants and the scroll offsets leave room for the view
/// bounds.
pub open spec fn view_fits(view: MapView) -> bool {
    &&& view.window_width <= i32::MAX - VIEW_MARGIN
    &&& view.window_height <= i32::MAX - VIEW_MARGIN
    &&& view.map_off_x <= i32::MAX - VIEW_MARGIN + 1
    &&& view.map_off_y <= i32::MAX - VIEW_MARGIN + 1
}

/// The region in which a tile's pixel offset counts as in view.
pub open spec fn view_bounds_spec(view: MapView) -> Rectangle {
    Rectangle {
        x1: (-VIEW_MARGIN - view.map_off_x) as i32,
        y1: (-VIEW_MARGIN - view.map_off_y) as i32,
        x2: (VIEW_MARGIN + view.window_width) as i32,
        y2: (VIEW_MARGIN + view.window_height) as i32,
    }
}

/// The pixel offset of tile `i`.
pub open spec fn tile_pixel(i: int, stride: int) -> (int, int) {
    (tile_position(i, stride).0 * TILE_WIDTH, tile_position(i, stride).1 * TILE_HEIGHT)
}

/// Whether tile `i` is in view.
pub open spec fn tile_in_view(view: MapView, stride: int, i: int) -> bool {
    view_bounds_spec(view).spec_contains(tile_pixel(i, stride).0, tile_pixel(i, stride).1)
}

/// The indices below `n` of the tiles in view, in increasing order.
pub open spec fn visible_indices(view: MapView, stride: int, n: int) -> Seq<usize>
    decreases n,
{
    if n <= 0 {
        Seq::empty()
    } else if tile_in_view(view, stride, n - 1) {
        visible_indices(view, stride, n - 1).push((n - 1) as usize)
    } else {
        visible_indices(view, stride, n - 1)
    }
}

/// The debug outline of a rectangle: spanned by its position and by its
/// size taken as a point.
pub open spec fn outline_of(r: Rect) -> Rectangle {
    Rectangle { x1: r.x, y1: r.y, x2: r.w, y2: r.h }
}

/// Whether the mouse lies in `area`.
pub open spec fn mouse_in(view: MapView, area: Rectangle) -> bool {
    area.spec_contains(view.mouse_x as int, view.mouse_y as int)
}

/// The part of the sprite sheet a tile image draws.
pub open spec fn tile_src(img: ImagePart) -> Rect {
    Rect::spec_new(
        img.source_x1 as int,
        img.source_y1 as int,
        as_unsigned(img.source_x2 - img.source_x1),
        as_unsigned(img.source_y2 - img.source_y1),
    )
}

/// Where a tile at pixel offset `(tx, ty)` is drawn.
pub open spec fn tile_dst(view: MapView, tx: int, ty: int) -> Rect {
    Rect::spec_new(0, 0, TILE_WIDTH as int, TILE_HEIGHT as int).spec_offset(tx, ty).spec_offset(
        view.map_off_x as int,
        view.map_off_y as int,
    )
}

/// The commands for one sprite of a tile image: the copy, then an outline
/// in the collision color when the mouse is on it.
pub open spec fn tile_sprite_cmds(
    view: MapView,
    tx: int,
    ty: int,
    collision: u8,
    img: ImagePart,
    sp: Sprite,
) -> Seq<DrawCommand> {
    let dst = tile_dst(view, tx, ty);
    let copy = DrawCommand::CopyTexture { texture: sp.texture, src: tile_src(img), dst };
    if mouse_in(view, outline_of(dst)) {
        seq![copy, DrawCommand::SetDrawColor(collision_color(collision)), DrawCommand::DrawRect(dst)]
    } else {
        seq![copy]
    }
}

/// The commands for the given sprites of a tile image, in order.
pub open spec fn tile_image_cmds(
    view: MapView,
    tx: int,
    ty: int,
    collision: u8,
    img: ImagePart,
    sprites: Seq<Sprite>,
) -> Seq<DrawCommand>
    decreases sprites.len(),
{
    if sprites.len() == 0 {
        Seq::empty()
    } else {
        tile_image_cmds(view, tx, ty, collision, img, sprites.drop_last()) + tile_sprite_cmds(
            view,
            tx,
            ty,
            collision,
            img,
            sprites.last(),
        )
    }
}

/// The commands for the given tile images of a tile, in order.
pub open spec fn tile_images_cmds(
    view: MapView,
    tx: int,
    ty: int,
    collision: u8,
    imgs: Seq<ImagePart>,
) -> Seq<DrawCommand>
    decreases imgs.len(),
{
    if imgs.len() == 0 {
        Seq::empty()
    } else {
        tile_images_cmds(view, tx, ty, collision, imgs.drop_last()) + tile_image_cmds(
            view,
            tx,
            ty,
            collision,
            imgs.last(),
            imgs.last().sprites@,
        )
    }
}

/// The commands that draw the tile images of the given first tiles of a
/// map: those of each tile in view, in order; tiles out of view draw
/// nothing.
pub open spec fn map_tiles_cmds(view: MapView, stride: int, tiles: Seq<MapTile>) -> Seq<
    DrawCommand,
>
    decreases tiles.len(),
{
    if tiles.len() == 0 {
        Seq::empty()
    } else {
        let i = tiles.len() - 1;
        map_tiles_cmds(view, stride, tiles.drop_last()) + if tile_in_view(
            view,
            stride,
            i,
        ) {
            tile_images_cmds(
                view,
                tile_pixel(i, stride).0,
                tile_pixel(i, stride).1,
                tiles.last().collision,
                tiles.last().tile_images@,
            )
        } else {
            Seq::empty()
        }
    }
}

/// The source size of a tile image fits an `i32`.
pub open spec fn tile_image_fits(img: ImagePart) -> bool {
    &&& i32::MIN <= img.source_x2 - img.source_x1 <= i32::MAX
    &&& i32::MIN <= img.source_y2 - img.source_y1 <= i32::MAX
}

/// Every tile image of a tile fits.
pub open spec fn tile_images_fit(t: MapTile) -> bool {
    forall|j: int| 0 <= j < t.tile_images@.len() ==> tile_image_fits(#[trigger] t.tile_images@[j])
}

/// The requirements of drawing a whole frame: the view bounds and every
/// tile offset fit an `i32`, and so do the image computations of every tile
/// in view.
pub open spec fn scene_fits(view: MapView, scene: MapScene) -> bool {
    &&& view_fits(view)
    &&& layout_fits(scene.stride as int, scene.tiles@.len() as int)
    &&& forall|i: int|
        0 <= i < scene.tiles@.len() && tile_in_view(view, scene.stride as int, i) ==> {
            &&& tile_images_fit(#[trigger] scene.tiles@[i])
            &&& object_images_fit(scene.tiles@[i])
        }
}

/// The commands of a frame: clear to the background color, draw the tile
/// images, then the object images, then show the frame.
pub open spec fn frame_cmds(view: MapView, scene: MapScene) -> Seq<DrawCommand> {
    seq![DrawCommand::SetDrawColor(background_color()), DrawCommand::Clear] + map_tiles_cmds(
        view,
        scene.stride as int,
        scene.tiles@,
    ) + map_objects_cmds(view, scene.stride as int, scene.tiles@) + seq![
        DrawCommand::Present,
    ]
}

fn tile_image_in_range(img: &ImagePart) -> (r: bool)
    ensures
        r == tile_image_fits(*img),
{
    let dx: i64 = img.source_x2 as i64 - img.source_x1 as i64;
    let dy: i64 = img.source_y2 as i64 - img.source_y1 as i64;
    i32::MIN as i64 <= dx && dx <= i32::MAX as i64 && i32::MIN as i64 <= dy && dy <= i32::MAX as i64
}

fn in_i32(v: i64) -> (r: bool)
    ensures
        r == (i32::MIN <= v <= i32::MAX),
{
    i32::MIN as i64 <= v && v <= i32::MAX as i64
}

fn object_sprite_in_range(img: &ImagePart, sp: Sprite) -> (r: bool)
    ensures
        r == object_sprite_fits(*img, sp),
{
    let x1: i64 = img.source_x1 as i64 - sp.x_off as i64;
    let y1: i64 = img.source_y1 as i64 - sp.y_off as i64;
    let x2: i64 = img.source_x2 as i64 - sp.x_off as i64;
    let y2: i64 = img.source_y2 as i64 - sp.y_off as i64;
    in_i32(x1) && in_i32(y1) && in_i32(x2) && in_i32(y2)
}

fn tile_images_in_range(t: &MapTile) -> (r: bool)
    ensures
        r == tile_images_fit(*t),
{
    let mut j: usize = 0;
    while j < t.tile_images.len()
        invariant
            j <= t.tile_images@.len(),
            forall|q: int| 0 <= q < j ==> tile_image_fits(#[trigger] t.tile_images@[q]),
        decreases t.tile_images@.len() - j,
    {
        if !tile_image_in_range(&t.tile_images[j]) {
            return false;
        }
        j = j + 1;
    }
    true
}

fn object_image_in_range(img: &ImagePart) -> (r: bool)
    ensures
        r == object_image_fits(*img),
{
    let mut k: usize = 0;
    while k < img.sprites.len()
        invariant
            k <= img.sprites@.len(),
            forall|q: int| 0 <= q < k ==> object_sprite_fits(*img, #[trigger] img.sprites@[q]),
        decreases img.sprites@.len() - k,
    {
        if !object_sprite_in_range(img, img.sprites[k]) {
            return false;
        }
        k = k + 1;
    }
    true
}

fn object_images_in_range(t: &MapTile) -> (r: bool)
    ensures
        r == object_images_fit(*t),
{
    let mut j: usize = 0;
    while j < t.object_images.len()
        invariant
            j <= t.object_images@.len(),
            forall|q: int| 0 <= q < j ==> object_image_fits(#[trigger] t.object_images@[q]),
        decreases t.object_images@.len() - j,
    {
        if !object_image_in_range(&t.object_images[j]) {
            return false;
        }
        j = j + 1;
    }
    true
}

fn tile_color(collision: u8) -> (c: Color)
    ensures
        c == collision_color(collision),
{
    if collision == 0 {
        Color { r: 255, g: 10, b: 10 }
    } else {
        Color { r: 10, g: 255, b: 10 }
    }
}

fn push_tile_sprite(
    out: &mut Vec<DrawCommand>,
    view: &MapView,
    tx: i32,
    ty: i32,
    collision: u8,
    img: &ImagePart,
    sp: Sprite,
)
    requires
        tile_image_fits(*img),
    ensures
        final(out)@ == old(out)@ + tile_sprite_cmds(
            *view,
            tx as int,
            ty as int,
            collision,
            *img,
            sp,
        ),
{
    let w = to_unsigned(img.source_x2 - img.source_x1);
    let h = to_unsigned(img.source_y2 - img.source_y1);
    let src = Rect::new(img.source_x1, img.source_y1, w, h);
    let mut dst = Rect::new(0, 0, TILE_WIDTH as u32, TILE_HEIGHT as u32);
    dst.offset(tx, ty);
    dst.offset(view.map_off_x, view.map_off_y);
    let ghost start = out@;
    out.push(DrawCommand::CopyTexture { texture: sp.texture, src, dst });
    let outline = Rectangle::new_from_points(
        (dst.x(), dst.y()),
        (dst.width() as i32, dst.height() as i32),
    );
    let mouse = Point::new(view.mouse_x, view.mouse_y);
    if outline.contains_point(&mouse) {
        out.push(DrawCommand::SetDrawColor(tile_color(collision)));
        out.push(DrawCommand::DrawRect(dst));
    }
    assert(out@ =~= start + tile_sprite_cmds(*view, tx as int, ty as int, collision, *img, sp));
}

fn push_tile_image(
    out: &mut Vec<DrawCommand>,
    view: &MapView,
    tx: i32,
    ty: i32,
    collision: u8,
    img: &ImagePart,
)
    requires
        tile_image_fits(*img),
    ensures
        final(out)@ == old(out)@ + tile_image_cmds(
            *view,
            tx as int,
            ty as int,
            collision,
            *img,
            img.sprites@,
        ),
{
    let ghost start = out@;
    let mut k: usize = 0;
    while k < img.sprites.len()
        invariant
            k <= img.sprites@.len(),
            tile_image_fits(*img),
            out@ == start + tile_image_cmds(
                *view,
                tx as int,
                ty as int,
                collision,
                *img,
                img.sprites@.take(k as int),
            ),
        decreases img.sprites@.len() - k,
    {
        let sp = img.sprites[k];
        proof {
            let s = img.sprites@.take(k + 1);
            assert(s.drop_last() =~= img.sprites@.take(k as int));
            assert(s.last() == sp);
        }
        push_tile_sprite(out, view, tx, ty, collision, img, sp);
        proof {
            let a = tile_image_cmds(*view, tx as int, ty as int, collision, *img, img.sprites@.take(k as int));
            let b = tile_sprite_cmds(*view, tx as int, ty as int, collision, *img, sp);
            assert(start + a + b =~= start + (a + b));
        }
        k = k + 1;
    }
    assert(img.sprites@.take(k as int) =~= img.sprites@);
}

fn push_tile_images(
    out: &mut Vec<DrawCommand>,
    view: &MapView,
    tx: i32,
    ty: i32,
    collision: u8,
    imgs: &Vec<ImagePart>,
)
    requires
        forall|j: int| 0 <= j < imgs@.len() ==> tile_image_fits(#[trigger] imgs@[j]),
    ensures
        final(out)@ == old(out)@ + tile_images_cmds(*view, tx as int, ty as int, collision, imgs@),
{
    let ghost start = out@;
    let mut j: usize = 0;
    while j < imgs.len()
        invariant
            j <= imgs@.len(),
            forall|q: int| 0 <= q < imgs@.len() ==> tile_image_fits(#[trigger] imgs@[q]),
            out@ == start + tile_images_cmds(
                *view,
                tx as int,
                ty as int,
                collision,
                imgs@.take(j as int),
            ),
        decreases imgs@.len() - j,
    {
        let img = &imgs[j];
        proof {
            let s = imgs@.take(j + 1);
            assert(s.drop_last() =~= imgs@.take(j as int));
            assert(s.last() == *img);
        }
        push_tile_image(out, view, tx, ty, collision, img);
        proof {
            let a = tile_images_cmds(*view, tx as int, ty as int, collision, imgs@.take(j as int));
            let b = tile_image_cmds(*view, tx as int, ty as int, collision, *img, img.sprites@);
            assert(start + a + b =~= start + (a + b));
        }
        j = j + 1;
    }
    assert(imgs@.take(j as int) =~= imgs@);
}


/// The smallest rectangle holding two points.
pub open spec fn enclose_two(p1: ScreenPoint, p2: ScreenPoint) -> Rect {
    Rect::spec_new(
        min_int(p1.x as int, p2.x as int),
        min_int(p1.y as int, p2.y as int),
        max_int(p1.x as int, p2.x as int) - min_int(p1.x as int, p2.x as int) + 1,
        max_int(p1.y as int, p2.y as int) - min_int(p1.y as int, p2.y as int) + 1,
    )
}

/// The source region of an object image, relative to its sprite's picture,
/// enclosed in a rectangle.
pub open spec fn object_region(img: ImagePart, sp: Sprite) -> Rect {
    enclose_two(
        ScreenPoint::spec_new(img.source_x1 - sp.x_off, img.source_y1 - sp.y_off),
        ScreenPoint::spec_new(img.source_x2 - sp.x_off, img.source_y2 - sp.y_off),
    )
}

/// The sprite's whole picture.
pub open spec fn sprite_picture(sp: Sprite) -> Rect {
    Rect::spec_new(0, 0, sp.x_dim as int, sp.y_dim as int)
}

/// The part of the sprite an object image copies: the region cut to the
/// picture where they overlap, the whole region where they do not.
pub open spec fn object_src(img: ImagePart, sp: Sprite) -> Rect {
    match object_region(img, sp).spec_intersection(sprite_picture(sp)) {
        Some(r) => r,
        None => object_region(img, sp),
    }
}

/// How far a cut region moves the image right (`.0`) and down (`.1`): by
/// the part of the region left of (above) the picture.
pub open spec fn object_shift(img: ImagePart, sp: Sprite) -> (int, int) {
    let x1 = img.source_x1 - sp.x_off;
    let y1 = img.source_y1 - sp.y_off;
    if object_region(img, sp).spec_intersection(sprite_picture(sp)) is Some {
        (if x1 < 0 {
            -x1
        } else {
            0
        }, if y1 < 0 {
            -y1
        } else {
            0
        })
    } else {
        (0, 0)
    }
}

/// Where an object image on the tile at pixel offset `(tx, ty)` is drawn:
/// shifted by `object_shift`, then moved by the scroll offset, the tile
/// offset and the image's own placement.
pub open spec fn object_dst(view: MapView, tx: int, ty: int, img: ImagePart, sp: Sprite) -> Rect {
    let src = object_src(img, sp);
    let shift = object_shift(img, sp);
    Rect::spec_new(shift.0, shift.1, src.w as int, src.h as int).spec_offset(
        view.map_off_x as int,
        view.map_off_y as int,
    ).spec_offset(tx, ty).spec_offset(img.dest_x as int, img.dest_y as int)
}

/// The area of the tile at pixel offset `(tx, ty)`.
pub open spec fn tile_area(tx: int, ty: int) -> Rectangle {
    Rectangle { x1: tx as i32, y1: ty as i32, x2: TILE_WIDTH, y2: TILE_HEIGHT }
}

/// The commands for one sprite of an object image: the copy; an outline of
/// the image when the mouse is on it; an outline of the tile when the mouse
/// is on the tile.
pub open spec fn object_sprite_cmds(view: MapView, tx: int, ty: int, img: ImagePart, sp: Sprite) -> Seq<
    DrawCommand,
> {
    let dst = object_dst(view, tx, ty, img, sp);
    seq![DrawCommand::CopyTexture { texture: sp.texture, src: object_src(img, sp), dst }] + (if mouse_in(
        view,
        outline_of(dst),
    ) {
        seq![DrawCommand::SetDrawColor(object_outline_color()), DrawCommand::DrawRect(dst)]
    } else {
        Seq::empty()
    }) + (if mouse_in(view, tile_area(tx, ty)) {
        seq![
            DrawCommand::SetDrawColor(tile_outline_color()),
            DrawCommand::DrawRect(Rect::spec_new(tx, ty, TILE_WIDTH as int, TILE_HEIGHT as int)),
        ]
    } else {
        Seq::empty()
    })
}

/// The commands for the given sprites of an object image, in order.
pub open spec fn object_image_cmds(
    view: MapView,
    tx: int,
    ty: int,
    img: ImagePart,
    sprites: Seq<Sprite>,
) -> Seq<DrawCommand>
    decreases sprites.len(),
{
    if sprites.len() == 0 {
        Seq::empty()
    } else {
        object_image_cmds(view, tx, ty, img, sprites.drop_last()) + object_sprite_cmds(
            view,
            tx,
            ty,
            img,
            sprites.last(),
        )
    }
}

/// The commands for the given object images of a tile, in order.
pub open spec fn object_images_cmds(view: MapView, tx: int, ty: int, imgs: Seq<ImagePart>) -> Seq<
    DrawCommand,
>
    decreases imgs.len(),
{
    if imgs.len() == 0 {
        Seq::empty()
    } else {
        object_images_cmds(view, tx, ty, imgs.drop_last()) + object_image_cmds(
            view,
            tx,
            ty,
            imgs.last(),
            imgs.last().sprites@,
        )
    }
}

/// The commands that draw the object images of the given first tiles of a
/// map: those of each tile in view, in order.
pub open spec fn map_objects_cmds(view: MapView, stride: int, tiles: Seq<MapTile>) -> Seq<
    DrawCommand,
>
    decreases tiles.len(),
{
    if tiles.len() == 0 {
        Seq::empty()
    } else {
        let i = tiles.len() - 1;
        map_objects_cmds(view, stride, tiles.drop_last()) + if tile_in_view(
            view,
            stride,
            i,
        ) {
            object_images_cmds(
                view,
                tile_pixel(i, stride).0,
                tile_pixel(i, stride).1,
                tiles.last().object_images@,
            )
        } else {
            Seq::empty()
        }
    }
}

/// The offsets of an object image from its sprite fit an `i32`.
pub open spec fn object_sprite_fits(img: ImagePart, sp: Sprite) -> bool {
    &&& i32::MIN <= img.source_x1 - sp.x_off <= i32::MAX
    &&& i32::MIN <= img.source_y1 - sp.y_off <= i32::MAX
    &&& i32::MIN <= img.source_x2 - sp.x_off <= i32::MAX
    &&& i32::MIN <= img.source_y2 - sp.y_off <= i32::MAX
}

/// Every sprite of an object image fits.
pub open spec fn object_image_fits(img: ImagePart) -> bool {
    forall|k: int| 0 <= k < img.sprites@.len() ==> object_sprite_fits(img, #[trigger] img.sprites@[k])
}

/// Every object image of a tile fits.
pub open spec fn object_images_fit(t: MapTile) -> bool {
    forall|j: int|
        0 <= j < t.object_images@.len() ==> object_image_fits(#[trigger] t.object_images@[j])
}

fn region_of(first: ScreenPoint, second: ScreenPoint) -> (r: Rect)
    requires
        first.wf(),
        second.wf(),
    ensures
        r == enclose_two(first, second),
        r.wf(),
        r.placed(),
{
    let points = vec![first, second];
    let enclosed = Rect::from_enclose_points(points.as_slice());
    proof {
        let s = points@;
        assert(s.len() == 2 && s[0] == first && s[1] == second);
        assert(s.drop_last() =~= seq![first]);
        assert(s.last() == second);
        assert(crate::rect::points_min_x(seq![first]) == first.x);
        assert(crate::rect::points_max_x(seq![first]) == first.x);
        assert(crate::rect::points_min_y(seq![first]) == first.y);
        assert(crate::rect::points_max_y(seq![first]) == first.y);
        assert(crate::rect::points_min_x(s) == min_int(first.x as int, second.x as int));
        assert(crate::rect::points_max_x(s) == max_int(first.x as int, second.x as int));
        assert(crate::rect::points_min_y(s) == min_int(first.y as int, second.y as int));
        assert(crate::rect::points_max_y(s) == max_int(first.y as int, second.y as int));
    }
    match enclosed {
        Some(r) => r,
        None => Rect::new(0, 0, 1, 1),
    }
}

fn push_object_sprite(
    out: &mut Vec<DrawCommand>,
    view: &MapView,
    tx: i32,
    ty: i32,
    img: &ImagePart,
    sp: Sprite,
)
    requires
        object_sprite_fits(*img, sp),
    ensures
        final(out)@ == old(out)@ + object_sprite_cmds(*view, tx as int, ty as int, *img, sp),
{
    let img_rect = Rect::new(0, 0, sp.x_dim, sp.y_dim);
    let img_x_1_off = img.source_x1 - sp.x_off;
    let img_y_1_off = img.source_y1 - sp.y_off;
    let img_x_2_off = img.source_x2 - sp.x_off;
    let img_y_2_off = img.source_y2 - sp.y_off;
    let region = region_of(
        ScreenPoint::new(img_x_1_off, img_y_1_off),
        ScreenPoint::new(img_x_2_off, img_y_2_off),
    );
    let mut src_rect = region;
    let mut x_diff: i32 = 0;
    let mut y_diff: i32 = 0;
    if let Some(rect) = src_rect.intersection(img_rect) {
        if img_x_1_off < 0 {
            x_diff = -img_x_1_off;
        }
        if img_y_1_off < 0 {
            y_diff = -img_y_1_off;
        }
        src_rect = rect;
    }
    let mut dst = Rect::new(x_diff, y_diff, src_rect.width(), src_rect.height());
    dst.offset(view.map_off_x, view.map_off_y);
    dst.offset(tx, ty);
    dst.offset(img.dest_x, img.dest_y);
    let ghost start = out@;
    out.push(DrawCommand::CopyTexture { texture: sp.texture, src: src_rect, dst });
    let mouse = Point::new(view.mouse_x, view.mouse_y);
    let d_rect = Rectangle::new_from_points(
        (dst.x(), dst.y()),
        (dst.width() as i32, dst.height() as i32),
    );
    let ghost mid = out@;
    if d_rect.contains_point(&mouse) {
        out.push(DrawCommand::SetDrawColor(Color { r: 10, g: 10, b: 255 }));
        out.push(DrawCommand::DrawRect(dst));
    }
    let ghost mid2 = out@;
    let tile_rect = Rectangle::new_from_points((tx, ty), (TILE_WIDTH, TILE_HEIGHT));
    if tile_rect.contains_point(&mouse) {
        let t_rect = Rect::new(tx, ty, TILE_WIDTH as u32, TILE_HEIGHT as u32);
        out.push(DrawCommand::SetDrawColor(Color { r: 100, g: 10, b: 10 }));
        out.push(DrawCommand::DrawRect(t_rect));
    }
    assert(out@ =~= start + object_sprite_cmds(*view, tx as int, ty as int, *img, sp));
}

fn push_object_image(out: &mut Vec<DrawCommand>, view: &MapView, tx: i32, ty: i32, img: &ImagePart)
    requires
        object_image_fits(*img),
    ensures
        final(out)@ == old(out)@ + object_image_cmds(*view, tx as int, ty as int, *img, img.sprites@),
{
    let ghost start = out@;
    let mut k: usize = 0;
    while k < img.sprites.len()
        invariant
            k <= img.sprites@.len(),
            object_image_fits(*img),
            out@ == start + object_image_cmds(
                *view,
                tx as int,
                ty as int,
                *img,
                img.sprites@.take(k as int),
            ),
        decreases img.sprites@.len() - k,
    {
        let sp = img.sprites[k];
        proof {
            let s = img.sprites@.take(k + 1);
            assert(s.drop_last() =~= img.sprites@.take(k as int));
            assert(s.last() == sp);
            assert(object_sprite_fits(*img, img.sprites@[k as int]));
        }
        push_object_sprite(out, view, tx, ty, img, sp);
        proof {
            let a = object_image_cmds(*view, tx as int, ty as int, *img, img.sprites@.take(k as int));
            let b = object_sprite_cmds(*view, tx as int, ty as int, *img, sp);
            assert(start + a + b =~= start + (a + b));
        }
        k = k + 1;
    }
    assert(img.sprites@.take(k as int) =~= img.sprites@);
}

fn push_object_images(
    out: &mut Vec<DrawCommand>,
    view: &MapView,
    tx: i32,
    ty: i32,
    imgs: &Vec<ImagePart>,
)
    requires
        forall|j: int| 0 <= j < imgs@.len() ==> object_image_fits(#[trigger] imgs@[j]),
    ensures
        final(out)@ == old(out)@ + object_images_cmds(*view, tx as int, ty as int, imgs@),
{
    let ghost start = out@;
    let mut j: usize = 0;
    while j < imgs.len()
        invariant
            j <= imgs@.len(),
            forall|q: int| 0 <= q < imgs@.len() ==> object_image_fits(#[trigger] imgs@[q]),
            out@ == start + object_images_cmds(*view, tx as int, ty as int, imgs@.take(j as int)),
        decreases imgs@.len() - j,
    {
        let img = &imgs[j];
        proof {
            let s = imgs@.take(j + 1);
            assert(s.drop_last() =~= imgs@.take(j as int));
            assert(s.last() == *img);
        }
        push_object_image(out, view, tx, ty, img);
        proof {
            let a = object_images_cmds(*view, tx as int, ty as int, imgs@.take(j as int));
            let b = object_image_cmds(*view, tx as int, ty as int, *img, img.sprites@);
            assert(start + a + b =~= start + (a + b));
        }
        j = j + 1;
    }
    assert(imgs@.take(j as int) =~= imgs@);
}

impl Sdl {
    /// The region in which a tile's pixel offset counts as in view: from
    /// `VIEW_MARGIN` above and left of the scrolled map origin to
    /// `VIEW_MARGIN` beyond the window size constants.
    pub fn view_bounds(&self, view: &MapView) -> (r: Rectangle)
        requires
            view_fits(*view),
        ensures
            r == view_bounds_spec(*view),
    {
        Rectangle::new_from_points(
            (-VIEW_MARGIN - view.map_off_x, -VIEW_MARGIN - view.map_off_y),
            (VIEW_MARGIN + view.window_width as i32, VIEW_MARGIN + view.window_height as i32),
        )
    }

    /// The indices of the tiles in view among `n` tiles laid out `stride` to
    /// a row, in increasing order.
    pub fn visible_tiles(&self, view: &MapView, stride: i32, n: usize) -> (r: Vec<usize>)
        requires
            view_fits(*view),
            layout_fits(stride as int, n as int),
        ensures
            r@ == visible_indices(*view, stride as int, n as int),
    {
        let bounds = self.view_bounds(view);
        let mut out: Vec<usize> = Vec::new();
        let mut tile_x: i32 = 0;
        let mut tile_y: i32 = 0;
        let mut i: usize = 0;
        proof {
            lemma_first_tile(stride as int);
        }
        while i < n
            invariant
                i <= n,
                layout_fits(stride as int, n as int),
                bounds == view_bounds_spec(*view),
                (tile_x as int, tile_y as int) == tile_position(i as int, stride as int),
                out@ == visible_indices(*view, stride as int, i as int),
            decreases n - i,
        {
            proof {
                lemma_position_bounds(i as int, stride as int, n as int);
                lemma_next_tile_step(i as int, stride as int);
            }
            let offset = Point::new(tile_x * TILE_WIDTH, tile_y * TILE_HEIGHT);
            if bounds.contains_point(&offset) {
                out.push(i);
            }
            next_tile(&mut tile_x, &mut tile_y, stride);
            i = i + 1;
        }
        out
    }

    /// The commands that draw the tile images of every tile in view, tile by
    /// tile in map order (see `map_tiles_cmds`).
    pub fn render_map_tiles(&self, view: &MapView, scene: &MapScene) -> (cmds: Vec<DrawCommand>)
        requires
            view_fits(*view),
            layout_fits(scene.stride as int, scene.tiles@.len() as int),
            forall|i: int|
                0 <= i < scene.tiles@.len() && tile_in_view(*view, scene.stride as int, i)
                    ==> tile_images_fit(#[trigger] scene.tiles@[i]),
        ensures
            cmds@ == map_tiles_cmds(*view, scene.stride as int, scene.tiles@),
    {
        let bounds = self.view_bounds(view);
        let stride = scene.stride;
        let n = scene.tiles.len();
        let mut out: Vec<DrawCommand> = Vec::new();
        let mut tile_x: i32 = 0;
        let mut tile_y: i32 = 0;
        let mut i: usize = 0;
        proof {
            lemma_first_tile(stride as int);
        }
        while i < n
            invariant
                i <= n,
                n == scene.tiles@.len(),
                stride == scene.stride,
                layout_fits(stride as int, n as int),
                bounds == view_bounds_spec(*view),
                forall|q: int|
                    0 <= q < scene.tiles@.len() && tile_in_view(*view, stride as int, q)
                        ==> tile_images_fit(#[trigger] scene.tiles@[q]),
                (tile_x as int, tile_y as int) == tile_position(i as int, stride as int),
                out@ == map_tiles_cmds(
                    *view,
                    stride as int,
                    scene.tiles@.take(i as int),
                ),
            decreases n - i,
        {
            proof {
                lemma_position_bounds(i as int, stride as int, n as int);
                lemma_next_tile_step(i as int, stride as int);
                let s = scene.tiles@.take(i + 1);
                assert(s.drop_last() =~= scene.tiles@.take(i as int));
                assert(s.last() == scene.tiles@[i as int]);
            }
            let tile = &scene.tiles[i];
            let offset = Point::new(tile_x * TILE_WIDTH, tile_y * TILE_HEIGHT);
            if bounds.contains_point(&offset) {
                push_tile_images(&mut out, view, offset.x, offset.y, tile.collision, &tile.tile_images);
            } else {
                assert(out@ =~= out@ + Seq::<DrawCommand>::empty());
            }
            next_tile(&mut tile_x, &mut tile_y, stride);
            i = i + 1;
        }
        assert(scene.tiles@.take(n as int) =~= scene.tiles@);
        out
    }

    /// The commands that draw the object images of every tile in view, tile
    /// by tile in map order (see `map_objects_cmds`).
    pub fn render_map_objects(&self, view: &MapView, scene: &MapScene) -> (cmds: Vec<DrawCommand>)
        requires
            view_fits(*view),
            layout_fits(scene.stride as int, scene.tiles@.len() as int),
            forall|i: int|
                0 <= i < scene.tiles@.len() && tile_in_view(*view, scene.stride as int, i)
                    ==> object_images_fit(#[trigger] scene.tiles@[i]),
        ensures
            cmds@ == map_objects_cmds(*view, scene.stride as int, scene.tiles@),
    {
        let bounds = self.view_bounds(view);
        let stride = scene.stride;
        let n = scene.tiles.len();
        let mut out: Vec<DrawCommand> = Vec::new();
        let mut tile_x: i32 = 0;
        let mut tile_y: i32 = 0;
        let mut i: usize = 0;
        proof {
            lemma_first_tile(stride as int);
        }
        while i < n
            invariant
                i <= n,
                n == scene.tiles@.len(),
                stride == scene.stride,
                layout_fits(stride as int, n as int),
                bounds == view_bounds_spec(*view),
                forall|q: int|
                    0 <= q < scene.tiles@.len() && tile_in_view(*view, stride as int, q)
                        ==> object_images_fit(#[trigger] scene.tiles@[q]),
                (tile_x as int, tile_y as int) == tile_position(i as int, stride as int),
                out@ == map_objects_cmds(
                    *view,
                    stride as int,
                    scene.tiles@.take(i as int),
                ),
            decreases n - i,
        {
            proof {
                lemma_position_bounds(i as int, stride as int, n as int);
                lemma_next_tile_step(i as int, stride as int);
                let s = scene.tiles@.take(i + 1);
                assert(s.drop_last() =~= scene.tiles@.take(i as int));
                assert(s.last() == scene.tiles@[i as int]);
            }
            let tile = &scene.tiles[i];
            let offset = Point::new(tile_x * TILE_WIDTH, tile_y * TILE_HEIGHT);
            if bounds.contains_point(&offset) {
                push_object_images(&mut out, view, offset.x, offset.y, &tile.object_images);
            } else {
                assert(out@ =~= out@ + Seq::<DrawCommand>::empty());
            }
            next_tile(&mut tile_x, &mut tile_y, stride);
            i = i + 1;
        }
        assert(scene.tiles@.take(n as int) =~= scene.tiles@);
        out
    }

    /// The commands of a whole frame (see `frame_cmds`).
    pub fn render(&self, view: &MapView, scene: &MapScene) -> (cmds: Vec<DrawCommand>)
        requires
            scene_fits(*view, *scene),
        ensures
            cmds@ == frame_cmds(*view, *scene),
    {
        let mut out: Vec<DrawCommand> = Vec::new();
        out.push(DrawCommand::SetDrawColor(Color { r: 75, g: 100, b: 255 }));
        out.push(DrawCommand::Clear);
        let mut tiles = self.render_map_tiles(view, scene);
        out.append(&mut tiles);
        let mut objects = self.render_map_objects(view, scene);
        out.append(&mut objects);
        out.push(DrawCommand::Present);
        assert(out@ =~= frame_cmds(*view, *scene));
        out
    }

    /// Whether a frame of `scene` can be drawn (see `scene_fits`).
    pub fn can_render(&self, view: &MapView, scene: &MapScene) -> (r: bool)
        ensures
            r == scene_fits(*view, *scene),
    {
        if !(view.window_width <= 2147483547u32 && view.window_height <= 2147483547u32
            && view.map_off_x <= 2147483548i32 && view.map_off_y <= 2147483548i32) {
            return false;
        }
        let stride = scene.stride;
        let n = scene.tiles.len();
        if !can_lay_out(stride, n) {
            return false;
        }
        let bounds = self.view_bounds(view);
        let mut tile_x: i32 = 0;
        let mut tile_y: i32 = 0;
        let mut i: usize = 0;
        proof {
            lemma_first_tile(stride as int);
        }
        while i < n
            invariant
                i <= n,
                n == scene.tiles@.len(),
                stride == scene.stride,
                view_fits(*view),
                layout_fits(stride as int, n as int),
                bounds == view_bounds_spec(*view),
                (tile_x as int, tile_y as int) == tile_position(i as int, stride as int),
                forall|q: int|
                    0 <= q < i && tile_in_view(*view, stride as int, q) ==> {
                        &&& tile_images_fit(#[trigger] scene.tiles@[q])
                        &&& object_images_fit(scene.tiles@[q])
                    },
            decreases n - i,
        {
            proof {
                lemma_position_bounds(i as int, stride as int, n as int);
                lemma_next_tile_step(i as int, stride as int);
            }
            let offset = Point::new(tile_x * TILE_WIDTH, tile_y * TILE_HEIGHT);
            if bounds.contains_point(&offset) {
                let tile = &scene.tiles[i];
                if !(tile_images_in_range(tile) && object_images_in_range(tile)) {
                    return false;
                }
            }
            next_tile(&mut tile_x, &mut tile_y, stride);
            i = i + 1;
        }
        true
    }
}

/// Scenes that agree on every tile in view draw the same commands: tiles out
/// of view never affect what is drawn.
pub proof fn lemma_only_visible_tiles_drawn(
    view: MapView,
    stride: int,
    a: Seq<MapTile>,
    b: Seq<MapTile>,
)
    requires
        a.len() == b.len(),
        forall|i: int| 0 <= i < a.len() && tile_in_view(view, stride, i) ==> a[i] == b[i],
    ensures
        map_tiles_cmds(view, stride, a) == map_tiles_cmds(view, stride, b),
        map_objects_cmds(view, stride, a) == map_objects_cmds(view, stride, b),
    decreases a.len(),
{
    if a.len() > 0 {
        let n = a.len() - 1;
        assert(a.last() == a[n]);
        assert(b.last() == b[n]);
        lemma_only_visible_tiles_drawn(view, stride, a.drop_last(), b.drop_last());
    }
}

/// `visible_indices` lists exactly the tiles in view, each once, in
/// increasing order.
pub proof fn lemma_visible_indices_exact(view: MapView, stride: int, n: int)
    requires
        0 <= n <= usize::MAX,
    ensures
        forall|k: usize|
            (k < n && tile_in_view(view, stride, k as int)) <==> #[trigger] visible_indices(
                view,
                stride,
                n,
            ).contains(k),
        forall|p: int, q: int|
            0 <= p < q < visible_indices(view, stride, n).len() ==> visible_indices(
                view,
                stride,
                n,
            )[p] < visible_indices(view, stride, n)[q],
        forall|p: int|
            0 <= p < visible_indices(view, stride, n).len() ==> visible_indices(
                view,
                stride,
                n,
            )[p] < n,
    decreases n,
{
    if n > 0 {
        lemma_visible_indices_exact(view, stride, n - 1);
        let prev = visible_indices(view, stride, n - 1);
        let cur = visible_indices(view, stride, n);
        let last = (n - 1) as usize;
        if tile_in_view(view, stride, n - 1) {
            assert(cur == prev.push(last));
            assert forall|k: usize|
                (k < n && tile_in_view(view, stride, k as int)) <==> #[trigger] cur.contains(
                    k,
                ) by {
                if k < n && tile_in_view(view, stride, k as int) {
                    if k == last {
                        assert(cur[prev.len() as int] == last);
                    } else {
                        assert(prev.contains(k));
                        let w = choose|w: int| 0 <= w < prev.len() && prev[w] == k;
                        assert(cur[w] == k);
                    }
                }
                if cur.contains(k) {
                    let w = choose|w: int| 0 <= w < cur.len() && cur[w] == k;
                    if w < prev.len() {
                        assert(prev[w] == k);
                        assert(prev.contains(k));
                    }
                }
            }
        } else {
            assert forall|k: usize|
                (k < n && tile_in_view(view, stride, k as int)) <==> #[trigger] cur.contains(
                    k,
                ) by {
                if cur.contains(k) {
                    let w = choose|w: int| 0 <= w < cur.len() && cur[w] == k;
                    assert(prev[w] < n - 1);
                }
            }
        }
    }
}

/// Every tile is drawn onto a tile-sized destination.
pub proof fn lemma_tile_dst_size(view: MapView, tx: int, ty: int)
    ensures
        tile_dst(view, tx, ty).w == TILE_WIDTH,
        tile_dst(view, tx, ty).h == TILE_HEIGHT,
{
}

/// A tile sprite is copied whole from its image's source region onto the
/// tile's layout offset moved by the map scroll offset, at tile size: with
/// values in the clamped range, the first command copies
/// `(x1, y1, x2 - x1, y2 - y1)` of the sprite's texture onto
/// `(tx + map_off_x, ty + map_off_y, 48, 24)`.
pub proof fn lemma_tile_drawn_at_layout_plus_scroll(
    view: MapView,
    tx: int,
    ty: int,
    collision: u8,
    img: ImagePart,
    sp: Sprite,
)
    requires
        MIN_INT_VALUE <= tx <= MAX_INT_VALUE,
        MIN_INT_VALUE <= ty <= MAX_INT_VALUE,
        MIN_INT_VALUE <= tx + view.map_off_x <= MAX_INT_VALUE,
        MIN_INT_VALUE <= ty + view.map_off_y <= MAX_INT_VALUE,
        MIN_INT_VALUE <= img.source_x1 <= MAX_INT_VALUE,
        MIN_INT_VALUE <= img.source_y1 <= MAX_INT_VALUE,
        0 < img.source_x2 - img.source_x1 <= MAX_INT_VALUE,
        0 < img.source_y2 - img.source_y1 <= MAX_INT_VALUE,
    ensures
        tile_sprite_cmds(view, tx, ty, collision, img, sp).len() >= 1,
        tile_sprite_cmds(view, tx, ty, collision, img, sp)[0] == (DrawCommand::CopyTexture {
            texture: sp.texture,
            src: Rect {
                x: img.source_x1,
                y: img.source_y1,
                w: (img.source_x2 - img.source_x1) as i32,
                h: (img.source_y2 - img.source_y1) as i32,
            },
            dst: Rect {
                x: (tx + view.map_off_x) as i32,
                y: (ty + view.map_off_y) as i32,
                w: TILE_WIDTH,
                h: TILE_HEIGHT,
            },
        }),
{
}

/// An object region that lies inside its sprite's picture (`x_dim` wide and
/// `y_dim` high) is copied unchanged and unshifted: the first command copies
/// the region from `(x1 - x_off, y1 - y_off)` to `(x2 - x_off, y2 - y_off)`,
/// both ends included, onto a destination of the same size placed at the
/// scroll offset plus the tile offset plus the image's own placement.
pub proof fn lemma_object_inside_picture_copied_whole(
    view: MapView,
    tx: int,
    ty: int,
    img: ImagePart,
    sp: Sprite,
)
    requires
        0 <= img.source_x1 - sp.x_off <= img.source_x2 - sp.x_off < sp.x_dim,
        0 <= img.source_y1 - sp.y_off <= img.source_y2 - sp.y_off < sp.y_dim,
        sp.x_dim <= MAX_INT_VALUE,
        sp.y_dim <= MAX_INT_VALUE,
        MIN_INT_VALUE <= view.map_off_x + tx + img.dest_x <= MAX_INT_VALUE,
        MIN_INT_VALUE <= view.map_off_y + ty + img.dest_y <= MAX_INT_VALUE,
        MIN_INT_VALUE <= view.map_off_x <= MAX_INT_VALUE,
        MIN_INT_VALUE <= view.map_off_y <= MAX_INT_VALUE,
        MIN_INT_VALUE <= view.map_off_x + tx <= MAX_INT_VALUE,
        MIN_INT_VALUE <= view.map_off_y + ty <= MAX_INT_VALUE,
    ensures
        object_shift(img, sp) == (0int, 0int),
        object_dst(view, tx, ty, img, sp).x == view.map_off_x + tx + img.dest_x,
        object_dst(view, tx, ty, img, sp).y == view.map_off_y + ty + img.dest_y,
        object_sprite_cmds(view, tx, ty, img, sp).len() >= 1,
        object_sprite_cmds(view, tx, ty, img, sp)[0] == (DrawCommand::CopyTexture {
            texture: sp.texture,
            src: Rect {
                x: (img.source_x1 - sp.x_off) as i32,
                y: (img.source_y1 - sp.y_off) as i32,
                w: (img.source_x2 - img.source_x1 + 1) as i32,
                h: (img.source_y2 - img.source_y1 + 1) as i32,
            },
            dst: object_dst(view, tx, ty, img, sp),
        }),
        object_dst(view, tx, ty, img, sp).w == img.source_x2 - img.source_x1 + 1,
        object_dst(view, tx, ty, img, sp).h == img.source_y2 - img.source_y1 + 1,
{
}

/// The picture an object region is cut to is `x_dim` wide and `y_dim`
/// high: where the region overlaps `[0, x_dim) x [0, y_dim)` the copied
/// source is exactly that overlap, lying within the picture; where it does
/// not, the region is copied as it is.
pub proof fn lemma_object_cut_to_picture(img: ImagePart, sp: Sprite)
    requires
        1 <= sp.x_dim <= MAX_INT_VALUE,
        1 <= sp.y_dim <= MAX_INT_VALUE,
    ensures
        ({
            let reg = object_region(img, sp);
            let src = object_src(img, sp);
            let left = if reg.x >= 0 { reg.x as int } else { 0 };
            let top = if reg.y >= 0 { reg.y as int } else { 0 };
            let right = if reg.x + reg.w <= sp.x_dim { reg.x + reg.w } else { sp.x_dim as int };
            let bottom = if reg.y + reg.h <= sp.y_dim { reg.y + reg.h } else { sp.y_dim as int };
            &&& (left < right && top < bottom) ==> {
                &&& src == (Rect {
                    x: left as i32,
                    y: top as i32,
                    w: (right - left) as i32,
                    h: (bottom - top) as i32,
                })
                &&& 0 <= src.x && src.x + src.w <= sp.x_dim
                &&& 0 <= src.y && src.y + src.h <= sp.y_dim
            }
            &&& !(left < right && top < bottom) ==> src == reg
        }),
{
    let reg = object_region(img, sp);
    lemma_overlap_intersects(reg, sprite_picture(sp));
}

/// The rectangle enclosing two points spans from the smaller to the larger
/// coordinate of each axis, both ends included (when they lie less than
/// `MAX_INT_VALUE` apart).
pub proof fn lemma_enclose_two_spans_points(p1: ScreenPoint, p2: ScreenPoint)
    requires
        p1.wf(),
        p2.wf(),
        p1.x - p2.x < MAX_INT_VALUE,
        p2.x - p1.x < MAX_INT_VALUE,
        p1.y - p2.y < MAX_INT_VALUE,
        p2.y - p1.y < MAX_INT_VALUE,
    ensures
        enclose_two(p1, p2).x == (if p1.x <= p2.x { p1.x } else { p2.x }),
        enclose_two(p1, p2).y == (if p1.y <= p2.y { p1.y } else { p2.y }),
        enclose_two(p1, p2).x + enclose_two(p1, p2).w - 1 == (if p1.x >= p2.x { p1.x } else { p2.x }),
        enclose_two(p1, p2).y + enclose_two(p1, p2).h - 1 == (if p1.y >= p2.y { p1.y } else { p2.y }),
{
}

} // verus!
