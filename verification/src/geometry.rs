//! Integer points and rectangles in screen coordinates.
use vstd::prelude::*;

verus! {

/// Half of `v`, rounded toward zero as integer division does.
pub open spec fn half(v: int) -> int {
    if v >= 0 {
        v / 2
    } else {
        -((-v) / 2)
    }
}

/// Whether `v` fits in an `i32`.
pub open spec fn fits_i32(v: int) -> bool {
    i32::MIN <= v <= i32::MAX
}

fn half_i32(v: i32) -> (r: i32)
    ensures
        r == half(v as int),
{
    v / 2
}

/// A point, or a vector between points.
#[derive(Clone, Copy, PartialEq, Eq, Debug, Structural)]
pub struct Point {
    pub x: i32,
    pub y: i32,
}

/// An axis-aligned rectangle from `min` (inclusive) to `max`.
#[derive(Clone, Copy, PartialEq, Eq, Debug, Structural)]
pub struct Rect {
    pub min: Point,
    pub max: Point,
}

impl Point {
    pub fn new(x: i32, y: i32) -> (r: Point)
        ensures
            r == (Point { x, y }),
    {
        Point { x, y }
    }
}

impl Rect {
    /// Whether the width, height and centre of this rectangle are
    /// computable without overflow.
    pub open spec fn well_sized(self) -> bool {
        &&& fits_i32(self.max.x - self.min.x)
        &&& fits_i32(self.max.y - self.min.y)
        &&& fits_i32(self.min.x + self.max.x)
        &&& fits_i32(self.min.y + self.max.y)
    }

    pub open spec fn spec_width(self) -> int {
        self.max.x - self.min.x
    }

    pub open spec fn spec_center_x(self) -> int {
        half(self.min.x + self.max.x)
    }

    pub open spec fn spec_center_y(self) -> int {
        half(self.min.y + self.max.y)
    }

    /// Width: `max.x - min.x`.
    pub fn width(&self) -> (r: i32)
        requires
            fits_i32(self.max.x - self.min.x),
        ensures
            r == self.spec_width(),
    {
        self.max.x - self.min.x
    }

    /// The centre, each coordinate halved toward zero.
    pub fn center(&self) -> (r: Point)
        requires
            fits_i32(self.min.x + self.max.x),
            fits_i32(self.min.y + self.max.y),
        ensures
            r.x == self.spec_center_x(),
            r.y == self.spec_center_y(),
    {
        Point { x: half_i32(self.min.x + self.max.x), y: half_i32(self.min.y + self.max.y) }
    }

    /// The overlap of two rectangles. When they do not overlap, `min` is
    /// collapsed onto `max` so the result is empty rather than inverted.
    pub fn intersect(&self, other: Rect) -> (r: Rect)
        ensures
            r == intersection(*self, other),
    {
        let max_x = if self.max.x < other.max.x {
            self.max.x
        } else {
            other.max.x
        };
        let max_y = if self.max.y < other.max.y {
            self.max.y
        } else {
            other.max.y
        };
        let lo_x = if self.min.x > other.min.x {
            self.min.x
        } else {
            other.min.x
        };
        let lo_y = if self.min.y > other.min.y {
            self.min.y
        } else {
            other.min.y
        };
        Rect {
            min: Point {
                x: if lo_x < max_x {
                    lo_x
                } else {
                    max_x
                },
                y: if lo_y < max_y {
                    lo_y
                } else {
                    max_y
                },
            },
            max: Point { x: max_x, y: max_y },
        }
    }
}

/// The overlap of two rectangles, collapsed onto its `max` corner when
/// they do not overlap.
pub open spec fn intersection(a: Rect, b: Rect) -> Rect {
    let max_x = min_int(a.max.x as int, b.max.x as int);
    let max_y = min_int(a.max.y as int, b.max.y as int);
    Rect {
        min: Point {
            x: min_int(max_int(a.min.x as int, b.min.x as int), max_x) as i32,
            y: min_int(max_int(a.min.y as int, b.min.y as int), max_y) as i32,
        },
        max: Point { x: max_x as i32, y: max_y as i32 },
    }
}

pub open spec fn min_int(a: int, b: int) -> int {
    if a <= b {
        a
    } else {
        b
    }
}

pub open spec fn max_int(a: int, b: int) -> int {
    if a >= b {
        a
    } else {
        b
    }
}

/// Whether two rectangles (each with `min` at or before `max`) share at
/// least a point or an edge.
pub open spec fn overlaps(a: Rect, b: Rect) -> bool {
    &&& a.min.x <= b.max.x
    &&& b.min.x <= a.max.x
    &&& a.min.y <= b.max.y
    &&& b.min.y <= a.max.y
}

/// Whether `min` is at or before `max` on both axes.
pub open spec fn ordered(r: Rect) -> bool {
    r.min.x <= r.max.x && r.min.y <= r.max.y
}

/// Whether `p` lies inside `r`, edges included.
pub open spec fn contains_point(r: Rect, x: int, y: int) -> bool {
    r.min.x <= x <= r.max.x && r.min.y <= y <= r.max.y
}

/// The overlap of two overlapping rectangles is the part they share: its
/// left and top edges are the later of the two, its right and bottom edges
/// the earlier, so it lies inside both, and a point lies in it exactly when
/// it lies in both.
pub proof fn lemma_intersection_is_shared_part(a: Rect, b: Rect)
    requires
        ordered(a),
        ordered(b),
        overlaps(a, b),
    ensures
        intersection(a, b).min.x == (if a.min.x >= b.min.x {
            a.min.x
        } else {
            b.min.x
        }),
        intersection(a, b).min.y == (if a.min.y >= b.min.y {
            a.min.y
        } else {
            b.min.y
        }),
        intersection(a, b).max.x == (if a.max.x <= b.max.x {
            a.max.x
        } else {
            b.max.x
        }),
        intersection(a, b).max.y == (if a.max.y <= b.max.y {
            a.max.y
        } else {
            b.max.y
        }),
        ordered(intersection(a, b)),
        forall|x: int, y: int|
            #[trigger] contains_point(intersection(a, b), x, y) <==> contains_point(a, x, y)
                && contains_point(b, x, y),
{
}

/// Halving the sum of two ordered values, toward zero, lands between them.
pub proof fn lemma_half_between(lo: int, hi: int)
    requires
        lo <= hi,
    ensures
        lo <= half(lo + hi) <= hi,
{
}

/// The centre of an ordered rectangle lies inside it.
pub proof fn lemma_center_inside(r: Rect)
    requires
        ordered(r),
    ensures
        contains_point(r, r.spec_center_x(), r.spec_center_y()),
{
    lemma_half_between(r.min.x as int, r.max.x as int);
    lemma_half_between(r.min.y as int, r.max.y as int);
}

} // verus!
