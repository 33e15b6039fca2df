//! Writing rasterized glyph pixels into the RGBA pixel buffer of a text
//! texture.
use vstd::prelude::*;

verus! {

/// Bytes per pixel of a text texture (red, green, blue, alpha order as
/// written: coverage first, then three full channels).
pub const BYTES_PER_PIXEL: usize = 4;

/// The value of a `u32` as the bits of a `u32` read back as an `i32` give it
/// (two's complement): what `v as i32` yields for a `u32` value `v`.
pub open spec fn as_signed(v: int) -> int {
    if v <= i32::MAX {
        v
    } else {
        v - 0x1_0000_0000
    }
}

/// Reinterprets the bits of a `u32` as an `i32`.
pub fn to_signed(v: u32) -> (r: i32)
    ensures
        r == as_signed(v as int),
{
    let r = v as i32;
    assert(v <= 0x7fff_ffff ==> r == v) by (bit_vector)
        requires
            r == v as i32,
    ;
    assert(v > 0x7fff_ffff ==> r == v - 0x1_0000_0000) by (bit_vector)
        requires
            r == v as i32,
    ;
    r
}

/// The texture pixel that glyph pixel `(gx, gy)` of a glyph whose bounding
/// box starts at `(min_x, min_y)` lands on, if it lies inside a texture of
/// `width` by `height` pixels; the glyph coordinates are read as `i32`s.
pub open spec fn glyph_target(
    gx: int,
    gy: int,
    min_x: int,
    min_y: int,
    width: int,
    height: int,
) -> Option<(int, int)> {
    let x = as_signed(gx) + min_x;
    let y = as_signed(gy) + min_y;
    if 0 <= x < width && 0 <= y < height {
        Some((x, y))
    } else {
        None
    }
}

/// The buffer with the pixel at byte offset `off` set to coverage `alpha`
/// followed by three bytes of 255.
pub open spec fn with_pixel(buf: Seq<u8>, off: int, alpha: u8) -> Seq<u8> {
    buf.update(off, alpha).update(off + 1, 255u8).update(off + 2, 255u8).update(off + 3, 255u8)
}

/// Every pixel of a `width` by `height` texture with rows `pitch` bytes
/// apart lies within a buffer of `len` bytes.
pub open spec fn buffer_holds(len: int, pitch: int, width: int, height: int) -> bool {
    width == 0 || height == 0 || (height - 1) * pitch + width * BYTES_PER_PIXEL <= len
}

/// The glyph coordinates meet the requirements of `draw_glyph_pixel`: read
/// as `i32`s and moved by the bounding box corner, they fit an `i32`.
pub open spec fn glyph_pixel_fits(gx: int, gy: int, min_x: int, min_y: int) -> bool {
    &&& i32::MIN <= as_signed(gx) + min_x <= i32::MAX
    &&& i32::MIN <= as_signed(gy) + min_y <= i32::MAX
}

/// Whether glyph pixel `(gx, gy)` of a glyph whose bounding box starts at
/// `(min_x, min_y)` has texture coordinates that fit an `i32`.
pub fn glyph_pixel_in_range(gx: u32, gy: u32, min_x: i32, min_y: i32) -> (r: bool)
    ensures
        r == glyph_pixel_fits(gx as int, gy as int, min_x as int, min_y as int),
{
    let x: i64 = to_signed(gx) as i64 + min_x as i64;
    let y: i64 = to_signed(gy) as i64 + min_y as i64;
    x >= -2147483648i64 && x <= 2147483647i64 && y >= -2147483648i64 && y <= 2147483647i64
}

/// Whether a buffer of `len` bytes holds every pixel of a `width` by
/// `height` texture with rows `pitch` bytes apart, both sizes fitting an
/// `i32`.
pub fn buffer_holds_texture(len: usize, pitch: usize, width: usize, height: usize) -> (r: bool)
    ensures
        r == (width <= i32::MAX && height <= i32::MAX && buffer_holds(
            len as int,
            pitch as int,
            width as int,
            height as int,
        )),
{
    if width > 2147483647usize || height > 2147483647usize {
        return false;
    }
    if width == 0 || height == 0 {
        return true;
    }
    let h: u128 = height as u128 - 1;
    let p: u128 = pitch as u128;
    assert(h * p <= 0xffff_ffff_ffff_ffff * 0xffff_ffff_ffff_ffff) by (nonlinear_arith)
        requires
            h <= 0xffff_ffff_ffff_ffff,
            p <= 0xffff_ffff_ffff_ffff,
    ;
    let rows: u128 = h * p;
    let needed: u128 = rows + width as u128 * 4;
    needed <= len as u128
}

/// Writes glyph pixel `(gx, gy)` with coverage `alpha` into the texture
/// buffer: when it lands inside the texture (see `glyph_target`) its four
/// bytes at `y * pitch + x * BYTES_PER_PIXEL` become `alpha, 255, 255, 255`;
/// otherwise the buffer is left as it was.
pub fn draw_glyph_pixel(
    buffer: &mut Vec<u8>,
    pitch: usize,
    width: usize,
    height: usize,
    gx: u32,
    gy: u32,
    min_x: i32,
    min_y: i32,
    alpha: u8,
)
    requires
        glyph_pixel_fits(gx as int, gy as int, min_x as int, min_y as int),
        width <= i32::MAX,
        height <= i32::MAX,
        buffer_holds(old(buffer)@.len() as int, pitch as int, width as int, height as int),
    ensures
        glyph_target(
            gx as int,
            gy as int,
            min_x as int,
            min_y as int,
            width as int,
            height as int,
        ) matches Some(t) ==> final(buffer)@ == with_pixel(
            old(buffer)@,
            t.1 * pitch + t.0 * BYTES_PER_PIXEL,
            alpha,
        ),
        glyph_target(
            gx as int,
            gy as int,
            min_x as int,
            min_y as int,
            width as int,
            height as int,
        ) is None ==> final(buffer)@ == old(buffer)@,
{
    let x: i32 = to_signed(gx) + min_x;
    let y: i32 = to_signed(gy) + min_y;
    if x >= 0 && x < width as i32 && y >= 0 && y < height as i32 {
        let xu = x as usize;
        let yu = y as usize;
        let blen = buffer.len();
        proof {
            let len = blen as int;
            assert(yu * pitch <= (height - 1) * pitch) by (nonlinear_arith)
                requires
                    yu <= height - 1,
            ;
            assert(yu * pitch + xu * 4 + 4 <= len) by (nonlinear_arith)
                requires
                    yu * pitch <= (height - 1) * pitch,
                    xu + 1 <= width,
                    (height - 1) * pitch + width * 4 <= len,
            ;
            assert(yu * pitch <= yu * pitch + xu * 4) by (nonlinear_arith)
                requires
                    xu >= 0,
            ;
        }
        let y_off: usize = yu * pitch;
        let x_off: usize = xu * BYTES_PER_PIXEL;
        let offset = y_off + x_off;
        buffer.set(offset, alpha);
        buffer.set(offset + 1, 255u8);
        buffer.set(offset + 2, 255u8);
        buffer.set(offset + 3, 255u8);
    }
}

/// Writing a pixel sets its four bytes to the coverage followed by three
/// bytes of 255 and leaves every other byte and the length as they were.
pub proof fn lemma_pixel_write_touches_four_bytes(buf: Seq<u8>, off: int, alpha: u8)
    requires
        0 <= off,
        off + BYTES_PER_PIXEL <= buf.len(),
    ensures
        with_pixel(buf, off, alpha).len() == buf.len(),
        with_pixel(buf, off, alpha)[off] == alpha,
        with_pixel(buf, off, alpha)[off + 1] == 255u8,
        with_pixel(buf, off, alpha)[off + 2] == 255u8,
        with_pixel(buf, off, alpha)[off + 3] == 255u8,
        forall|k: int|
            0 <= k < buf.len() && (k < off || k >= off + BYTES_PER_PIXEL) ==> #[trigger] with_pixel(
                buf,
                off,
                alpha,
            )[k] == buf[k],
{
}

/// A glyph pixel lands inside the texture at its coordinates read as
/// `i32`s and moved by the bounding box corner, or nowhere.
pub proof fn lemma_glyph_target_inside(gx: u32, gy: u32, min_x: i32, min_y: i32, width: int, height: int)
    ensures
        glyph_target(gx as int, gy as int, min_x as int, min_y as int, width, height) matches Some(t)
            ==> {
            &&& 0 <= t.0 < width && 0 <= t.1 < height
            &&& t.0 == (gx as i32) + min_x
            &&& t.1 == (gy as i32) + min_y
        },
{
    assert(gx <= 0x7fff_ffff ==> gx as i32 == gx) by (bit_vector);
    assert(gx > 0x7fff_ffff ==> gx as i32 == gx - 0x1_0000_0000) by (bit_vector);
    assert(gy <= 0x7fff_ffff ==> gy as i32 == gy) by (bit_vector);
    assert(gy > 0x7fff_ffff ==> gy as i32 == gy - 0x1_0000_0000) by (bit_vector);
}

} // verus!
