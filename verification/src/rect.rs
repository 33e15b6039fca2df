//! Screen rectangles and points with the clamping rules of SDL's `Rect` and
//! `Point`: sizes are never zero and never exceed half of `i32::MAX`,
//! positions are clamped to half of the `i32` range.
use vstd::prelude::*;

verus! {

/// Largest size and position a rectangle holds (`i32::MAX / 2`).
pub const MAX_INT_VALUE: i32 = 1073741823;

/// Smallest position a rectangle or point is clamped to (`i32::MIN / 2`).
pub const MIN_INT_VALUE: i32 = -1073741824;

/// A size as a rectangle stores it: zero becomes one, and large sizes are cut
/// down to `MAX_INT_VALUE`.
pub open spec fn clamp_size(v: int) -> int {
    if v == 0 {
        1
    } else if v > MAX_INT_VALUE {
        MAX_INT_VALUE as int
    } else {
        v
    }
}

/// A position as a rectangle or point stores it.
pub open spec fn clamp_position(v: int) -> int {
    if v > MAX_INT_VALUE {
        MAX_INT_VALUE as int
    } else if v < MIN_INT_VALUE {
        MIN_INT_VALUE as int
    } else {
        v
    }
}

/// The position `p` moved by `d`: clamped when the sum fits an `i32`, and
/// pinned to `MAX_INT_VALUE` or `i32::MIN` when it does not.
pub open spec fn shifted_position(p: int, d: int) -> int {
    if i32::MIN <= p + d <= i32::MAX {
        clamp_position(p + d)
    } else if d >= 0 {
        MAX_INT_VALUE as int
    } else {
        i32::MIN as int
    }
}

/// The value of a `u32` as the bits of an `i32` read back as a `u32` give it
/// (two's complement): what `v as u32` yields for an `i32` value `v`.
pub open spec fn as_unsigned(v: int) -> int {
    if v >= 0 {
        v
    } else {
        v + 0x1_0000_0000
    }
}

pub open spec fn min_int(a: int, b: int) -> int {
    if a <= b {
        a
    } else {
        b
    }
}

pub open spec fn max_int(a: int, b: int) -> int {
    if a >= b {
        a
    } else {
        b
    }
}

fn clamp_size_u32(v: u32) -> (r: u32)
    ensures
        r == clamp_size(v as int),
{
    if v == 0 {
        1
    } else if v > 1073741823u32 {
        1073741823u32
    } else {
        v
    }
}

fn clamp_position_i32(v: i32) -> (r: i32)
    ensures
        r == clamp_position(v as int),
{
    if v > MAX_INT_VALUE {
        MAX_INT_VALUE
    } else if v < MIN_INT_VALUE {
        MIN_INT_VALUE
    } else {
        v
    }
}

fn shift_position(p: i32, d: i32) -> (r: i32)
    ensures
        r == shifted_position(p as int, d as int),
{
    let s: i64 = p as i64 + d as i64;
    if s >= i32::MIN as i64 && s <= i32::MAX as i64 {
        clamp_position_i32(s as i32)
    } else if d >= 0 {
        MAX_INT_VALUE
    } else {
        i32::MIN
    }
}

/// Reinterprets the bits of an `i32` as a `u32`.
pub fn to_unsigned(v: i32) -> (r: u32)
    ensures
        r == as_unsigned(v as int),
{
    let r = v as u32;
    assert(v >= 0 ==> r == v) by (bit_vector)
        requires
            r == v as u32,
    ;
    assert(v < 0 ==> r == v + 0x1_0000_0000) by (bit_vector)
        requires
            r == v as u32,
    ;
    r
}

/// A point whose coordinates lie in the clamped position range.
#[derive(Clone, Copy, Debug, PartialEq, Eq, Structural)]
pub struct Point {
    pub x: i32,
    pub y: i32,
}

impl Point {
    /// Both coordinates lie in `[MIN_INT_VALUE, MAX_INT_VALUE]`.
    pub open spec fn wf(self) -> bool {
        MIN_INT_VALUE <= self.x <= MAX_INT_VALUE && MIN_INT_VALUE <= self.y <= MAX_INT_VALUE
    }

    pub open spec fn spec_new(x: int, y: int) -> Point {
        Point { x: clamp_position(x) as i32, y: clamp_position(y) as i32 }
    }

    /// A point at `(x, y)`, each coordinate clamped.
    pub fn new(x: i32, y: i32) -> (p: Point)
        ensures
            p == Point::spec_new(x as int, y as int),
            p.wf(),
    {
        Point { x: clamp_position_i32(x), y: clamp_position_i32(y) }
    }
}

/// A non-empty rectangle: `x`, `y` is its upper left corner, `w`, `h` its
/// size.
#[derive(Clone, Copy, Debug, PartialEq, Eq, Structural)]
pub struct Rect {
    pub x: i32,
    pub y: i32,
    pub w: i32,
    pub h: i32,
}

/// The smallest `x` of a non-empty sequence of points.
pub open spec fn points_min_x(s: Seq<Point>) -> int
    decreases s.len(),
{
    if s.len() <= 1 {
        s[0].x as int
    } else {
        min_int(points_min_x(s.drop_last()), s.last().x as int)
    }
}

/// The largest `x` of a non-empty sequence of points.
pub open spec fn points_max_x(s: Seq<Point>) -> int
    decreases s.len(),
{
    if s.len() <= 1 {
        s[0].x as int
    } else {
        max_int(points_max_x(s.drop_last()), s.last().x as int)
    }
}

/// The smallest `y` of a non-empty sequence of points.
pub open spec fn points_min_y(s: Seq<Point>) -> int
    decreases s.len(),
{
    if s.len() <= 1 {
        s[0].y as int
    } else {
        min_int(points_min_y(s.drop_last()), s.last().y as int)
    }
}

/// The largest `y` of a non-empty sequence of points.
pub open spec fn points_max_y(s: Seq<Point>) -> int
    decreases s.len(),
{
    if s.len() <= 1 {
        s[0].y as int
    } else {
        max_int(points_max_y(s.drop_last()), s.last().y as int)
    }
}

proof fn lemma_points_bounds(s: Seq<Point>)
    requires
        s.len() >= 1,
        forall|i: int| 0 <= i < s.len() ==> (#[trigger] s[i]).wf(),
    ensures
        MIN_INT_VALUE <= points_min_x(s) <= points_max_x(s) <= MAX_INT_VALUE,
        MIN_INT_VALUE <= points_min_y(s) <= points_max_y(s) <= MAX_INT_VALUE,
    decreases s.len(),
{
    if s.len() > 1 {
        lemma_points_bounds(s.drop_last());
        assert(s.last() == s[s.len() - 1]);
    }
}

impl Rect {
    /// Size within `[1, MAX_INT_VALUE]`; each position clamped, or `i32::MIN`
    /// after a move past the lower end of the `i32` range.
    pub open spec fn wf(self) -> bool {
        &&& 1 <= self.w <= MAX_INT_VALUE
        &&& 1 <= self.h <= MAX_INT_VALUE
        &&& (self.x == i32::MIN || MIN_INT_VALUE <= self.x <= MAX_INT_VALUE)
        &&& (self.y == i32::MIN || MIN_INT_VALUE <= self.y <= MAX_INT_VALUE)
    }

    /// Both positions lie in the clamped range.
    pub open spec fn placed(self) -> bool {
        MIN_INT_VALUE <= self.x <= MAX_INT_VALUE && MIN_INT_VALUE <= self.y <= MAX_INT_VALUE
    }

    /// The rectangle that `new` builds; `width` and `height` are `u32` values.
    pub open spec fn spec_new(x: int, y: int, width: int, height: int) -> Rect {
        Rect {
            x: clamp_position(x) as i32,
            y: clamp_position(y) as i32,
            w: clamp_size(width) as i32,
            h: clamp_size(height) as i32,
        }
    }

    /// The rectangle moved by `(dx, dy)`.
    pub open spec fn spec_offset(self, dx: int, dy: int) -> Rect {
        Rect {
            x: shifted_position(self.x as int, dx) as i32,
            y: shifted_position(self.y as int, dy) as i32,
            w: self.w,
            h: self.h,
        }
    }

    /// The overlap of two rectangles, `None` where they do not overlap
    /// (rectangles that only share an edge do not overlap).
    pub open spec fn spec_intersection(self, other: Rect) -> Option<Rect> {
        let x0 = max_int(self.x as int, other.x as int);
        let x1 = min_int(self.x + self.w, other.x + other.w);
        let y0 = max_int(self.y as int, other.y as int);
        let y1 = min_int(self.y + self.h, other.y + other.h);
        if x1 - x0 <= 0 || y1 - y0 <= 0 {
            None
        } else {
            Some(Rect::spec_new(x0, y0, x1 - x0, y1 - y0))
        }
    }

    /// The smallest rectangle that holds every point of a non-empty sequence.
    pub open spec fn spec_enclose(s: Seq<Point>) -> Rect {
        Rect::spec_new(
            points_min_x(s),
            points_min_y(s),
            points_max_x(s) - points_min_x(s) + 1,
            points_max_y(s) - points_min_y(s) + 1,
        )
    }

    /// A rectangle at `(x, y)` of the given size; positions are clamped, a
    /// zero size becomes one and sizes above `MAX_INT_VALUE` are cut down.
    pub fn new(x: i32, y: i32, width: u32, height: u32) -> (r: Rect)
        ensures
            r == Rect::spec_new(x as int, y as int, width as int, height as int),
            r.wf(),
            r.placed(),
    {
        Rect {
            x: clamp_position_i32(x),
            y: clamp_position_i32(y),
            w: clamp_size_u32(width) as i32,
            h: clamp_size_u32(height) as i32,
        }
    }

    /// The horizontal position.
    pub fn x(&self) -> (r: i32)
        ensures
            r == self.x,
    {
        self.x
    }

    /// The vertical position.
    pub fn y(&self) -> (r: i32)
        ensures
            r == self.y,
    {
        self.y
    }

    /// The width.
    pub fn width(&self) -> (r: u32)
        requires
            self.wf(),
        ensures
            r == self.w,
    {
        self.w as u32
    }

    /// The height.
    pub fn height(&self) -> (r: u32)
        requires
            self.wf(),
        ensures
            r == self.h,
    {
        self.h as u32
    }

    /// Moves the rectangle by `(x, y)`; the size stays.
    pub fn offset(&mut self, x: i32, y: i32)
        ensures
            *final(self) == old(self).spec_offset(x as int, y as int),
            old(self).wf() ==> final(self).wf(),
    {
        self.x = shift_position(self.x, x);
        self.y = shift_position(self.y, y);
    }

    /// The overlap of this rectangle with `other`, or `None` where they do
    /// not overlap.
    pub fn intersection(&self, other: Rect) -> (r: Option<Rect>)
        requires
            self.wf(),
            self.placed(),
            other.wf(),
            other.placed(),
        ensures
            r == self.spec_intersection(other),
            r matches Some(i) ==> i.wf() && i.placed(),
    {
        let x0: i32 = if self.x >= other.x {
            self.x
        } else {
            other.x
        };
        let x1: i32 = if self.x + self.w <= other.x + other.w {
            self.x + self.w
        } else {
            other.x + other.w
        };
        let y0: i32 = if self.y >= other.y {
            self.y
        } else {
            other.y
        };
        let y1: i32 = if self.y + self.h <= other.y + other.h {
            self.y + self.h
        } else {
            other.y + other.h
        };
        let w: i32 = x1 - x0;
        let h: i32 = y1 - y0;
        if w <= 0 || h <= 0 {
            None
        } else {
            Some(Rect::new(x0, y0, w as u32, h as u32))
        }
    }

    /// The smallest rectangle that holds all the points, `None` for no
    /// points.
    pub fn from_enclose_points(points: &[Point]) -> (r: Option<Rect>)
        requires
            forall|i: int| 0 <= i < points@.len() ==> (#[trigger] points@[i]).wf(),
        ensures
            points@.len() == 0 ==> r is None,
            points@.len() > 0 ==> r == Some(Rect::spec_enclose(points@)),
            r matches Some(e) ==> e.wf() && e.placed(),
    {
        if points.len() == 0 {
            return None;
        }
        let mut min_x: i32 = points[0].x;
        let mut max_x: i32 = points[0].x;
        let mut min_y: i32 = points[0].y;
        let mut max_y: i32 = points[0].y;
        let mut i: usize = 1;
        while i < points.len()
            invariant
                1 <= i <= points@.len(),
                forall|k: int| 0 <= k < points@.len() ==> (#[trigger] points@[k]).wf(),
                min_x == points_min_x(points@.subrange(0, i as int)),
                max_x == points_max_x(points@.subrange(0, i as int)),
                min_y == points_min_y(points@.subrange(0, i as int)),
                max_y == points_max_y(points@.subrange(0, i as int)),
            decreases points@.len() - i,
        {
            let p = points[i];
            assert(points@.subrange(0, i + 1).drop_last() =~= points@.subrange(0, i as int));
            if p.x < min_x {
                min_x = p.x;
            }
            if p.x > max_x {
                max_x = p.x;
            }
            if p.y < min_y {
                min_y = p.y;
            }
            if p.y > max_y {
                max_y = p.y;
            }
            i = i + 1;
        }
        assert(points@.subrange(0, points@.len() as int) =~= points@);
        proof {
            lemma_points_bounds(points@);
        }
        let w: i64 = max_x as i64 - min_x as i64 + 1;
        let h: i64 = max_y as i64 - min_y as i64 + 1;
        Some(Rect::new(min_x, min_y, w as u32, h as u32))
    }
}

/// Intersecting is symmetric: `a` with `b` gives what `b` with `a` gives.
pub proof fn lemma_intersection_commutes(a: Rect, b: Rect)
    ensures
        a.spec_intersection(b) == b.spec_intersection(a),
{
}

/// A rectangle overlaps itself completely.
pub proof fn lemma_intersection_self(a: Rect)
    requires
        a.wf(),
        a.placed(),
    ensures
        a.spec_intersection(a) == Some(a),
{
}

/// The overlap of two rectangles lies within each of them.
pub proof fn lemma_intersection_within(a: Rect, b: Rect)
    requires
        a.wf(),
        a.placed(),
        b.wf(),
        b.placed(),
    ensures
        a.spec_intersection(b) matches Some(r) ==> {
            &&& a.x <= r.x && r.x + r.w <= a.x + a.w
            &&& a.y <= r.y && r.y + r.h <= a.y + a.h
            &&& b.x <= r.x && r.x + r.w <= b.x + b.w
            &&& b.y <= r.y && r.y + r.h <= b.y + b.h
        },
{
}

/// Moving a placed rectangle by nothing leaves it where it is.
pub proof fn lemma_offset_zero(a: Rect)
    requires
        a.placed(),
    ensures
        a.spec_offset(0, 0) == a,
{
}

/// Moving a rectangle within the clamped range and back restores it.
pub proof fn lemma_offset_round_trip(a: Rect, dx: int, dy: int)
    requires
        a.placed(),
        MIN_INT_VALUE <= a.x + dx <= MAX_INT_VALUE,
        MIN_INT_VALUE <= a.y + dy <= MAX_INT_VALUE,
    ensures
        a.spec_offset(dx, dy).spec_offset(-dx, -dy) == a,
{
}

/// A rectangle built from a valid position and size keeps them exactly.
pub proof fn lemma_new_keeps_valid_values(x: int, y: int, w: int, h: int)
    requires
        MIN_INT_VALUE <= x <= MAX_INT_VALUE,
        MIN_INT_VALUE <= y <= MAX_INT_VALUE,
        1 <= w <= MAX_INT_VALUE,
        1 <= h <= MAX_INT_VALUE,
    ensures
        Rect::spec_new(x, y, w, h) == (Rect { x: x as i32, y: y as i32, w: w as i32, h: h as i32 }),
{
}

/// Rectangles overlap exactly when their column ranges and their row
/// ranges overlap, and then their intersection spans from the larger left
/// (top) edge to the smaller right (bottom) edge; otherwise there is none.
pub proof fn lemma_overlap_intersects(a: Rect, b: Rect)
    requires
        a.wf(),
        a.placed(),
        b.wf(),
        b.placed(),
    ensures
        ({
            let left = if a.x >= b.x { a.x as int } else { b.x as int };
            let right = if a.x + a.w <= b.x + b.w { a.x + a.w } else { b.x + b.w };
            let top = if a.y >= b.y { a.y as int } else { b.y as int };
            let bottom = if a.y + a.h <= b.y + b.h { a.y + a.h } else { b.y + b.h };
            &&& (left < right && top < bottom) ==> a.spec_intersection(b) == Some(
                Rect {
                    x: left as i32,
                    y: top as i32,
                    w: (right - left) as i32,
                    h: (bottom - top) as i32,
                },
            )
            &&& !(left < right && top < bottom) ==> a.spec_intersection(b) is None
        }),
{
}

/// A rectangle lying inside another is their intersection, whichever is
/// asked.
pub proof fn lemma_nested_intersection(a: Rect, b: Rect)
    requires
        a.wf(),
        a.placed(),
        b.wf(),
        b.placed(),
        a.x <= b.x,
        b.x + b.w <= a.x + a.w,
        a.y <= b.y,
        b.y + b.h <= a.y + a.h,
    ensures
        a.spec_intersection(b) == Some(b),
        b.spec_intersection(a) == Some(b),
{
}

/// Each point lies within the smallest and largest coordinates of the
/// sequence, and some point attains each of them.
pub proof fn lemma_points_extremes(s: Seq<Point>)
    requires
        s.len() >= 1,
    ensures
        forall|i: int|
            0 <= i < s.len() ==> points_min_x(s) <= #[trigger] s[i].x <= points_max_x(s)
                && points_min_y(s) <= s[i].y <= points_max_y(s),
        exists|i: int| 0 <= i < s.len() && #[trigger] s[i].x == points_min_x(s),
        exists|i: int| 0 <= i < s.len() && #[trigger] s[i].x == points_max_x(s),
        exists|i: int| 0 <= i < s.len() && #[trigger] s[i].y == points_min_y(s),
        exists|i: int| 0 <= i < s.len() && #[trigger] s[i].y == points_max_y(s),
    decreases s.len(),
{
    if s.len() > 1 {
        let t = s.drop_last();
        lemma_points_extremes(t);
        assert(s.last() == s[s.len() - 1]);
        assert forall|i: int| 0 <= i < s.len() implies points_min_x(s) <= #[trigger] s[i].x
            <= points_max_x(s) && points_min_y(s) <= s[i].y <= points_max_y(s) by {
            if i < s.len() - 1 {
                assert(s[i] == t[i]);
            }
        }
        let i1 = choose|i: int| 0 <= i < t.len() && #[trigger] t[i].x == points_min_x(t);
        let i2 = choose|i: int| 0 <= i < t.len() && #[trigger] t[i].x == points_max_x(t);
        let i3 = choose|i: int| 0 <= i < t.len() && #[trigger] t[i].y == points_min_y(t);
        let i4 = choose|i: int| 0 <= i < t.len() && #[trigger] t[i].y == points_max_y(t);
        assert(s[i1] == t[i1] && s[i2] == t[i2] && s[i3] == t[i3] && s[i4] == t[i4]);
        let l = s.len() - 1;
        if points_min_x(s) == s[l].x {
            assert(s[l].x == points_min_x(s));
        } else {
            assert(s[i1].x == points_min_x(s));
        }
        if points_max_x(s) == s[l].x {
            assert(s[l].x == points_max_x(s));
        } else {
            assert(s[i2].x == points_max_x(s));
        }
        if points_min_y(s) == s[l].y {
            assert(s[l].y == points_min_y(s));
        } else {
            assert(s[i3].y == points_min_y(s));
        }
        if points_max_y(s) == s[l].y {
            assert(s[l].y == points_max_y(s));
        } else {
            assert(s[i4].y == points_max_y(s));
        }
    } else {
        assert(s[0].x == points_min_x(s));
        assert(s[0].x == points_max_x(s));
        assert(s[0].y == points_min_y(s));
        assert(s[0].y == points_max_y(s));
    }
}

/// The enclosing rectangle is the smallest holding every point: every
/// point lies inside it, and a point lies on each of its four edges (when
/// the points spread less than `MAX_INT_VALUE` in each direction, so that
/// no size is cut down).
pub proof fn lemma_enclose_is_smallest(s: Seq<Point>)
    requires
        s.len() >= 1,
        forall|i: int| 0 <= i < s.len() ==> (#[trigger] s[i]).wf(),
        forall|i: int, j: int|
            0 <= i < s.len() && 0 <= j < s.len() ==> s[i].x - s[j].x < MAX_INT_VALUE && s[i].y
                - s[j].y < MAX_INT_VALUE,
    ensures
        ({
            let e = Rect::spec_enclose(s);
            &&& forall|i: int|
                0 <= i < s.len() ==> e.x <= #[trigger] s[i].x < e.x + e.w && e.y <= s[i].y < e.y
                    + e.h
            &&& exists|i: int| 0 <= i < s.len() && #[trigger] s[i].x == e.x
            &&& exists|i: int| 0 <= i < s.len() && #[trigger] s[i].x == e.x + e.w - 1
            &&& exists|i: int| 0 <= i < s.len() && #[trigger] s[i].y == e.y
            &&& exists|i: int| 0 <= i < s.len() && #[trigger] s[i].y == e.y + e.h - 1
        }),
{
    lemma_points_extremes(s);
    lemma_points_bounds(s);
    let i1 = choose|i: int| 0 <= i < s.len() && #[trigger] s[i].x == points_min_x(s);
    let i2 = choose|i: int| 0 <= i < s.len() && #[trigger] s[i].x == points_max_x(s);
    let i3 = choose|i: int| 0 <= i < s.len() && #[trigger] s[i].y == points_min_y(s);
    let i4 = choose|i: int| 0 <= i < s.len() && #[trigger] s[i].y == points_max_y(s);
    assert(s[i2].x - s[i1].x < MAX_INT_VALUE);
    assert(s[i4].y - s[i3].y < MAX_INT_VALUE);
}

} // verus!
