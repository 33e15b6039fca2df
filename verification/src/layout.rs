//! The order in which map tiles are laid out: row by row, `stride` tiles to
//! a row.
use vstd::prelude::*;
use vstd::arithmetic::div_mod::{
    lemma_div_is_ordered, lemma_fundamental_div_mod, lemma_fundamental_div_mod_converse,
    lemma_mod_bound, lemma_div_pos_is_pos,
};

verus! {

/// Width of a map tile in pixels.
pub const TILE_WIDTH: i32 = 48;

/// Height of a map tile in pixels.
pub const TILE_HEIGHT: i32 = 24;

/// The column and row after `(x, y)`: the next column, or the start of the
/// next row once the column reaches `stride`.
pub open spec fn next_tile_spec(x: int, y: int, stride: int) -> (int, int) {
    if x + 1 >= stride {
        (0, y + 1)
    } else {
        (x + 1, y)
    }
}

/// The column and row of tile number `i`: rows of `stride` tiles, or one
/// tile to a row when `stride` is not positive.
pub open spec fn tile_position(i: int, stride: int) -> (int, int) {
    if stride > 0 {
        (i % stride, i / stride)
    } else {
        (0, i)
    }
}

/// Moves `(x, y)` to the next tile (see `next_tile_spec`).
pub fn next_tile(x: &mut i32, y: &mut i32, stride: i32)
    requires
        *old(x) < i32::MAX,
        *old(x) + 1 >= stride ==> *old(y) < i32::MAX,
    ensures
        (*final(x) as int, *final(y) as int) == next_tile_spec(
            *old(x) as int,
            *old(y) as int,
            stride as int,
        ),
{
    *x += 1;
    if *x >= stride {
        *x = 0;
        *y += 1;
    }
}

/// Stepping from the position of tile `i` gives the position of tile
/// `i + 1`: starting at `(0, 0)`, repeated steps visit the tiles in order.
pub proof fn lemma_next_tile_step(i: int, stride: int)
    requires
        i >= 0,
    ensures
        next_tile_spec(tile_position(i, stride).0, tile_position(i, stride).1, stride)
            == tile_position(i + 1, stride),
{
    if stride > 0 {
        let x = i % stride;
        let y = i / stride;
        lemma_fundamental_div_mod(i, stride);
        lemma_mod_bound(i, stride);
        assert(i == y * stride + x) by (nonlinear_arith)
            requires
                i == stride * y + x,
        ;
        if x + 1 >= stride {
            assert(i + 1 == (y + 1) * stride + 0) by (nonlinear_arith)
                requires
                    i == y * stride + x,
                    x == stride - 1,
            ;
            lemma_fundamental_div_mod_converse(i + 1, stride, y + 1, 0);
        } else {
            lemma_fundamental_div_mod_converse(i + 1, stride, y, x + 1);
        }
    }
}

/// Tile `0` sits at column `0` of row `0`.
pub proof fn lemma_first_tile(stride: int)
    ensures
        tile_position(0, stride) == (0int, 0int),
{
    if stride > 0 {
        lemma_fundamental_div_mod_converse(0, stride, 0, 0);
    }
}

/// The last column any of `n` tiles uses.
pub open spec fn last_column(stride: int, n: int) -> int {
    if stride > 0 {
        if n < stride {
            n - 1
        } else {
            stride - 1
        }
    } else {
        0
    }
}

/// The last row any of `n` tiles uses.
pub open spec fn last_row(stride: int, n: int) -> int {
    tile_position(n - 1, stride).1
}

/// Every pixel offset of `n` tiles fits an `i32`.
pub open spec fn layout_fits(stride: int, n: int) -> bool {
    n == 0 || (last_column(stride, n) * TILE_WIDTH <= i32::MAX && last_row(stride, n)
        * TILE_HEIGHT <= i32::MAX)
}

/// No tile of `n` lies beyond the last column or row.
pub proof fn lemma_position_bounds(i: int, stride: int, n: int)
    requires
        0 <= i < n,
    ensures
        0 <= tile_position(i, stride).0 <= last_column(stride, n),
        0 <= tile_position(i, stride).1 <= last_row(stride, n),
{
    if stride > 0 {
        lemma_mod_bound(i, stride);
        lemma_div_is_ordered(i, n - 1, stride);
        lemma_div_pos_is_pos(i, stride);
        lemma_fundamental_div_mod(i, stride);
        assert(i % stride <= i) by (nonlinear_arith)
            requires
                i == stride * (i / stride) + i % stride,
                i / stride >= 0,
                stride > 0,
        ;
    }
}

/// Whether every pixel offset of `n` tiles laid out `stride` to a row fits
/// an `i32`.
pub fn can_lay_out(stride: i32, n: usize) -> (r: bool)
    ensures
        r == layout_fits(stride as int, n as int),
{
    if n == 0 {
        return true;
    }
    let col: i64 = if stride > 0 {
        if (n as u64) < stride as u64 {
            n as i64 - 1
        } else {
            stride as i64 - 1
        }
    } else {
        0
    };
    let last: u64 = n as u64 - 1;
    let row: u64 = if stride > 0 {
        last / stride as u64
    } else {
        last
    };
    proof {
        if stride > 0 {
            assert(last_row(stride as int, n as int) == row);
        }
    }
    col <= 44739242 && row <= 89478485
}

/// The position reached from `(0, 0)` after `k` steps of `next_tile`.
pub open spec fn steps_from_origin(k: nat, stride: int) -> (int, int)
    decreases k,
{
    if k == 0 {
        (0, 0)
    } else {
        let p = steps_from_origin((k - 1) as nat, stride);
        next_tile_spec(p.0, p.1, stride)
    }
}

/// Starting at `(0, 0)`, `k` steps of `next_tile` reach tile number `k`:
/// column `k % stride` of row `k / stride` (row `k` when `stride` is not
/// positive).
pub proof fn lemma_steps_visit_in_order(k: nat, stride: int)
    ensures
        steps_from_origin(k, stride) == tile_position(k as int, stride),
    decreases k,
{
    if k == 0 {
        lemma_first_tile(stride);
    } else {
        lemma_steps_visit_in_order((k - 1) as nat, stride);
        lemma_next_tile_step(k - 1, stride);
    }
}

} // verus!
