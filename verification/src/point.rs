//! Discrete 2d coordinates: points and inclusive rectangles.
//!
//! All coordinates are `i32`. A rectangle stores its two corners, both of
//! them inside the rectangle.

use vstd::prelude::*;
use vstd::std_specs::convert::FromSpecImpl;
use vstd::std_specs::ops::{AddSpecImpl, SubSpecImpl};

verus! {

/// A position on the integer grid.
#[derive(Debug, Clone, Copy, PartialEq, Eq, Hash, Structural)]
pub struct Point {
    pub x: i32,
    pub y: i32,
}

/// Whether `v` is representable as a coordinate.
pub open spec fn is_coord(v: int) -> bool {
    i32::MIN <= v <= i32::MAX
}

/// The point reached from `p` by moving `(dx, dy)`, where that point exists.
pub open spec fn shifted(p: Point, dx: int, dy: int) -> Option<Point> {
    if is_coord(p.x + dx) && is_coord(p.y + dy) {
        Some(Point { x: (p.x + dx) as i32, y: (p.y + dy) as i32 })
    } else {
        None
    }
}

impl Point {
    /// The point `(x, y)`.
    pub fn new(x: i32, y: i32) -> (p: Point)
        ensures
            p == (Point { x, y }),
    {
        Point { x, y }
    }

    /// The point `(self.x + dx, self.y + dy)`.
    pub fn offset(&self, dx: i32, dy: i32) -> (p: Point)
        requires
            is_coord(self.x + dx),
            is_coord(self.y + dy),
        ensures
            p.x == self.x + dx,
            p.y == self.y + dy,
    {
        Point { x: self.x + dx, y: self.y + dy }
    }

    /// Like [`Point::offset`], but `None` where a coordinate would leave the
    /// range of `i32`.
    pub fn checked_offset(&self, dx: i32, dy: i32) -> (r: Option<Point>)
        ensures
            r == shifted(*self, dx as int, dy as int),
    {
        match (self.x.checked_add(dx), self.y.checked_add(dy)) {
            (Some(x), Some(y)) => Some(Point { x, y }),
            _ => None,
        }
    }

    /// The line from this point to `to`, both ends included: one point for
    /// each step along the longer side, see [`line_point`].
    pub fn line_to(&self, to: &Point) -> (points: Vec<Point>)
        ensures
            points@.len() == line_steps(*self, *to) + 1,
            forall|i: int|
                0 <= i < points@.len() ==> points@[i] == #[trigger] line_point(*self, *to, i),
    {
        let x1: i64 = to.x as i64;
        let y1: i64 = to.y as i64;
        let dx: i64 = if to.x >= self.x {
            to.x as i64 - self.x as i64
        } else {
            self.x as i64 - to.x as i64
        };
        let sx: i64 = if self.x < to.x {
            1
        } else {
            -1
        };
        let ey: i64 = if to.y >= self.y {
            to.y as i64 - self.y as i64
        } else {
            self.y as i64 - to.y as i64
        };
        let dy: i64 = -ey;
        let sy: i64 = if self.y < to.y {
            1
        } else {
            -1
        };
        let mut err: i64 = dx + dy;
        let mut x: i64 = self.x as i64;
        let mut y: i64 = self.y as i64;
        let mut points: Vec<Point> = Vec::new();
        let ghost n: int = line_steps(*self, *to);
        let ghost mut i: int = 0;
        let ghost mut a: int = 0;
        let ghost mut b: int = 0;
        let ghost mut d: int = 0;
        let mut done: bool = false;
        while !done
            invariant
                dx == span(self.x, to.x),
                ey == span(self.y, to.y),
                dy == -ey,
                n == line_steps(*self, *to),
                sx == if self.x < to.x {
                    1int
                } else {
                    -1int
                },
                sy == if self.y < to.y {
                    1int
                } else {
                    -1int
                },
                x1 == to.x,
                y1 == to.y,
                0 <= a <= dx,
                0 <= b <= ey,
                x == toward(self.x, to.x, a),
                y == toward(self.y, to.y, b),
                d == a * ey - b * dx,
                err == dx - ey - d,
                dx >= ey ==> a == i,
                dx >= ey && dx > 0 ==> -dx < 2 * d <= dx && (ey == dx ==> d == 0),
                dx < ey ==> b == i,
                dx < ey ==> -ey < -2 * d <= ey,
                !done ==> 0 <= i <= n && points@.len() == i,
                done ==> points@.len() == n + 1,
                forall|j: int|
                    0 <= j < points@.len() ==> points@[j] == #[trigger] line_point(*self, *to, j),
            decreases n - i + (if done { 0int } else { 1int }),
        {
            proof {
                lemma_on_the_line(*self, *to, i, a, b, d);
            }
            points.push(Point { x: x as i32, y: y as i32 });
            if x == x1 && y == y1 {
                proof {
                    lemma_at_the_end(*self, *to, a, b);
                }
                done = true;
            } else {
                proof {
                    lemma_not_at_the_end(*self, *to, a, b, d);
                }
                let e2: i64 = 2 * err;
                let ghost a0 = a;
                let ghost b0 = b;
                let ghost d0 = d;
                if e2 > dy {
                    err = err + dy;
                    x = x + sx;
                    proof {
                        a = a + 1;
                        d = d + ey;
                    }
                }
                if e2 < dx {
                    err = err + dx;
                    y = y + sy;
                    proof {
                        b = b + 1;
                        d = d - dx;
                    }
                }
                proof {
                    lemma_next_on_the_line(dx as int, ey as int, a0, b0, d0, a, b, d);
                    i = i + 1;
                }
            }
        }
        points
    }
}

impl Default for Point {
    fn default() -> (p: Point)
        ensures
            p == (Point { x: 0, y: 0 }),
    {
        Point { x: 0, y: 0 }
    }
}

impl From<(i32, i32)> for Point {
    fn from(xy: (i32, i32)) -> (p: Point) {
        Point { x: xy.0, y: xy.1 }
    }
}

impl FromSpecImpl<(i32, i32)> for Point {
    open spec fn obeys_from_spec() -> bool {
        true
    }

    open spec fn from_spec(xy: (i32, i32)) -> Point {
        Point { x: xy.0, y: xy.1 }
    }
}

impl core::ops::Add for Point {
    type Output = Point;

    fn add(self, other: Point) -> (p: Point) {
        Point { x: self.x + other.x, y: self.y + other.y }
    }
}

impl AddSpecImpl for Point {
    open spec fn obeys_add_spec() -> bool {
        true
    }

    open spec fn add_req(self, other: Point) -> bool {
        is_coord(self.x + other.x) && is_coord(self.y + other.y)
    }

    open spec fn add_spec(self, other: Point) -> Point {
        Point { x: (self.x + other.x) as i32, y: (self.y + other.y) as i32 }
    }
}

impl core::ops::Sub for Point {
    type Output = Point;

    fn sub(self, other: Point) -> (p: Point) {
        Point { x: self.x - other.x, y: self.y - other.y }
    }
}

impl SubSpecImpl for Point {
    open spec fn obeys_sub_spec() -> bool {
        true
    }

    open spec fn sub_req(self, other: Point) -> bool {
        is_coord(self.x - other.x) && is_coord(self.y - other.y)
    }

    open spec fn sub_spec(self, other: Point) -> Point {
        Point { x: (self.x - other.x) as i32, y: (self.y - other.y) as i32 }
    }
}

/// An axis-aligned rectangle given by two corners; `(x2, y2)` is inclusive.
#[derive(Debug, Clone, Copy, PartialEq, Eq, Hash, Structural)]
pub struct Rectangle {
    pub y1: i32,
    pub x1: i32,
    pub y2: i32,
    pub x2: i32,
}

impl Rectangle {
    /// The least x coordinate of the rectangle's points.
    pub open spec fn left(self) -> int {
        if self.x1 <= self.x2 {
            self.x1 as int
        } else {
            self.x2 as int
        }
    }

    /// The least y coordinate of the rectangle's points.
    pub open spec fn top(self) -> int {
        if self.y1 <= self.y2 {
            self.y1 as int
        } else {
            self.y2 as int
        }
    }

    /// The number of columns that [`Rectangle::iter`] walks.
    pub open spec fn span_x(self) -> int {
        if self.x1 <= self.x2 {
            self.x2 - self.x1 + 1
        } else {
            self.x1 - self.x2 + 1
        }
    }

    /// The number of rows that [`Rectangle::iter`] walks.
    pub open spec fn span_y(self) -> int {
        if self.y1 <= self.y2 {
            self.y2 - self.y1 + 1
        } else {
            self.y1 - self.y2 + 1
        }
    }

    /// The point that [`Rectangle::iter`] yields at position `i`: rows from
    /// top to bottom, each row from left to right.
    pub open spec fn point_at(self, i: int) -> Point {
        Point {
            x: (self.left() + i % self.span_x()) as i32,
            y: (self.top() + i / self.span_x()) as i32,
        }
    }

    /// Whether `p` lies within the rectangle, corners included.
    pub open spec fn spec_contains(self, p: Point) -> bool {
        self.x1 <= p.x <= self.x2 && self.y1 <= p.y <= self.y2
    }

    /// `x2 - x1 + 1`.
    pub fn width(&self) -> (w: i32)
        requires
            is_coord(self.x2 - self.x1),
            is_coord(self.x2 - self.x1 + 1),
        ensures
            w == self.x2 - self.x1 + 1,
    {
        self.x2 - self.x1 + 1
    }

    /// `y2 - y1 + 1`.
    pub fn height(&self) -> (h: i32)
        requires
            is_coord(self.y2 - self.y1),
            is_coord(self.y2 - self.y1 + 1),
        ensures
            h == self.y2 - self.y1 + 1,
    {
        self.y2 - self.y1 + 1
    }

    /// Width and height as a point.
    pub fn size(&self) -> (p: Point)
        requires
            is_coord(self.x2 - self.x1),
            is_coord(self.x2 - self.x1 + 1),
            is_coord(self.y2 - self.y1),
            is_coord(self.y2 - self.y1 + 1),
        ensures
            p.x == self.x2 - self.x1 + 1,
            p.y == self.y2 - self.y1 + 1,
    {
        Point { x: self.width(), y: self.height() }
    }

    /// The corner `(x1, y1)`.
    pub fn top_left(&self) -> (p: Point)
        ensures
            p == (Point { x: self.x1, y: self.y1 }),
    {
        Point { x: self.x1, y: self.y1 }
    }

    /// The corner `(x2, y1)`.
    pub fn top_right(&self) -> (p: Point)
        ensures
            p == (Point { x: self.x2, y: self.y1 }),
    {
        Point { x: self.x2, y: self.y1 }
    }

    /// The corner `(x1, y2)`.
    pub fn bottom_left(&self) -> (p: Point)
        ensures
            p == (Point { x: self.x1, y: self.y2 }),
    {
        Point { x: self.x1, y: self.y2 }
    }

    /// The corner `(x2, y2)`.
    pub fn bottom_right(&self) -> (p: Point)
        ensures
            p == (Point { x: self.x2, y: self.y2 }),
    {
        Point { x: self.x2, y: self.y2 }
    }

    /// The middle of the rectangle; each coordinate is `c1 + (c2 - c1) / 2`
    /// with the quotient rounded towards zero.
    pub fn center(&self) -> (p: Point)
        requires
            is_coord(self.x2 - self.x1),
            is_coord(self.y2 - self.y1),
        ensures
            p.x == self.x1 + half_toward_zero(self.x2 - self.x1),
            p.y == self.y1 + half_toward_zero(self.y2 - self.y1),
    {
        Point {
            x: self.x1 + (self.x2 - self.x1) / 2,
            y: self.y1 + (self.y2 - self.y1) / 2,
        }
    }

    /// Whether `p` lies within the rectangle, corners included.
    pub fn contains(&self, p: &Point) -> (b: bool)
        ensures
            b == self.spec_contains(*p),
    {
        (p.x >= self.x1) && (p.x <= self.x2) && (p.y >= self.y1) && (p.y <= self.y2)
    }

    /// All points between the two corners, whichever way round the corners
    /// are given: rows from top to bottom, each row from left to right.
    pub fn iter(&self) -> (points: Vec<Point>)
        requires
            self.span_x() * self.span_y() <= usize::MAX,
        ensures
            points@.len() == self.span_x() * self.span_y(),
            forall|i: int| 0 <= i < points@.len() ==> points@[i] == #[trigger] self.point_at(i),
    {
        let x1: i32 = if self.x1 <= self.x2 { self.x1 } else { self.x2 };
        let x2: i32 = if self.x1 <= self.x2 { self.x2 } else { self.x1 };
        let y1: i32 = if self.y1 <= self.y2 { self.y1 } else { self.y2 };
        let y2: i32 = if self.y1 <= self.y2 { self.y2 } else { self.y1 };
        let ghost w: int = self.span_x();
        let ghost h: int = self.span_y();
        let mut points: Vec<Point> = Vec::new();
        let mut y: i32 = y1;
        let mut rows_left: bool = true;
        while rows_left
            invariant
                x1 == self.left(),
                y1 == self.top(),
                w == self.span_x(),
                h == self.span_y(),
                w == x2 - x1 + 1,
                h == y2 - y1 + 1,
                w * h <= usize::MAX,
                y1 <= y <= y2,
                rows_left ==> points@.len() == (y - y1) * w,
                !rows_left ==> y == y2 && points@.len() == h * w,
                forall|i: int| 0 <= i < points@.len() ==> points@[i] == #[trigger] self.point_at(i),
            decreases (y2 - y) + (if rows_left { 1int } else { 0int }),
        {
            let mut x: i32 = x1;
            let mut columns_left: bool = true;
            let ghost row_start: int = (y - y1) * w;
            while columns_left
                invariant
                    x1 == self.left(),
                    y1 == self.top(),
                    w == self.span_x(),
                    h == self.span_y(),
                    w == x2 - x1 + 1,
                    h == y2 - y1 + 1,
                    w * h <= usize::MAX,
                    y1 <= y <= y2,
                    x1 <= x <= x2,
                    row_start == (y - y1) * w,
                    columns_left ==> points@.len() == row_start + (x - x1),
                    !columns_left ==> x == x2 && points@.len() == row_start + w,
                    forall|i: int|
                        0 <= i < points@.len() ==> points@[i] == #[trigger] self.point_at(i),
                decreases (x2 - x) + (if columns_left { 1int } else { 0int }),
            {
                proof {
                    let i = row_start + (x - x1);
                    lemma_row_major(i, w, y - y1, x - x1);
                }
                points.push(Point { x, y });
                if x < x2 {
                    x = x + 1;
                } else {
                    columns_left = false;
                }
            }
            proof {
                assert((y - y1) * w + w == (y - y1 + 1) * w) by (nonlinear_arith);
            }
            if y < y2 {
                y = y + 1;
            } else {
                rows_left = false;
            }
        }
        points
    }
}

/// The distance between two coordinates.
pub open spec fn span(from: i32, to: i32) -> int {
    if to >= from {
        to - from
    } else {
        from - to
    }
}

/// The coordinate `steps` away from `from` in the direction of `to`.
pub open spec fn toward(from: i32, to: i32, steps: int) -> int {
    if from < to {
        from + steps
    } else {
        from - steps
    }
}

/// The number of steps of the line from `from` to `to`: the length of its
/// longer side.
pub open spec fn line_steps(from: Point, to: Point) -> int {
    if span(from.x, to.x) >= span(from.y, to.y) {
        span(from.x, to.x)
    } else {
        span(from.y, to.y)
    }
}

/// `num / den`, rounded to the nearest whole number, and down from the
/// middle between two.
pub open spec fn rounded(num: int, den: int) -> int {
    (2 * num + den - 1) / (2 * den)
}

/// The point of the line from `from` to `to` after `i` steps. Each step
/// goes one ahead along the longer side of the line; along the other side
/// the point is as near to the straight line as a point of the grid can
/// be.
pub open spec fn line_point(from: Point, to: Point, i: int) -> Point {
    let dx = span(from.x, to.x);
    let ey = span(from.y, to.y);
    if dx == 0 && ey == 0 {
        from
    } else if dx >= ey {
        Point {
            x: toward(from.x, to.x, i) as i32,
            y: toward(from.y, to.y, rounded(i * ey, dx)) as i32,
        }
    } else {
        Point {
            x: toward(from.x, to.x, rounded(i * dx, ey)) as i32,
            y: toward(from.y, to.y, i) as i32,
        }
    }
}

/// A line starts at its first end and stops at its second.
pub proof fn lemma_line_ends(from: Point, to: Point)
    ensures
        line_point(from, to, 0) == from,
        line_point(from, to, line_steps(from, to)) == to,
{
    let dx = span(from.x, to.x);
    let ey = span(from.y, to.y);
    if dx == 0 && ey == 0 {
    } else if dx >= ey {
        lemma_rounded(0, dx, 0);
        lemma_rounded(dx * ey, dx, ey);
    } else {
        lemma_rounded(0, ey, 0);
        lemma_rounded(ey * dx, ey, dx);
    }
}

/// Each step of a line goes one ahead along the longer side, and not more
/// than one along the other.
pub proof fn lemma_line_steps_are_neighbours(from: Point, to: Point, i: int)
    requires
        0 <= i < line_steps(from, to),
    ensures
        -1 <= line_point(from, to, i + 1).x - line_point(from, to, i).x <= 1,
        -1 <= line_point(from, to, i + 1).y - line_point(from, to, i).y <= 1,
        line_point(from, to, i + 1) != line_point(from, to, i),
{
    let dx = span(from.x, to.x);
    let ey = span(from.y, to.y);
    if dx >= ey {
        lemma_rounded_steps(i, ey, dx);
    } else {
        lemma_rounded_steps(i, dx, ey);
    }
}

/// Rounded multiples of a ratio that is at most one go up by at most one,
/// and stay between 0 and the numerator.
proof fn lemma_rounded_steps(i: int, num: int, den: int)
    requires
        0 <= num <= den,
        0 < den,
        0 <= i < den,
    ensures
        0 <= rounded(i * num, den) <= rounded((i + 1) * num, den) <= rounded(i * num, den) + 1,
        rounded((i + 1) * num, den) <= num,
{
    let q = rounded(i * num, den);
    let r = rounded((i + 1) * num, den);
    let n0 = 2 * (i * num) + den - 1;
    let n1 = 2 * ((i + 1) * num) + den - 1;
    let m = 2 * den;
    assert(n1 == n0 + 2 * num) by (nonlinear_arith)
        requires
            n0 == 2 * (i * num) + den - 1,
            n1 == 2 * ((i + 1) * num) + den - 1,
    ;
    assert(0 <= i * num <= (i + 1) * num <= den * num) by (nonlinear_arith)
        requires
            0 <= num,
            0 <= i < den,
    ;
    vstd::arithmetic::div_mod::lemma_fundamental_div_mod(n0, m);
    vstd::arithmetic::div_mod::lemma_fundamental_div_mod(n1, m);
    vstd::arithmetic::div_mod::lemma_mod_bound(n0, m);
    vstd::arithmetic::div_mod::lemma_mod_bound(n1, m);
    assert(q == n0 / m);
    assert(r == n1 / m);
    assert(m * q <= n0 < m * q + m);
    assert(m * r <= n1 < m * r + m);
    assert(q >= 0) by (nonlinear_arith)
        requires
            n0 < m * q + m,
            n0 >= 0,
            m > 0,
    ;
    assert(r >= q) by (nonlinear_arith)
        requires
            m * q <= n0,
            n0 <= n1,
            n1 < m * r + m,
            m > 0,
    ;
    assert(r <= q + 1) by (nonlinear_arith)
        requires
            m * r <= n1,
            n1 == n0 + 2 * num,
            2 * num <= m,
            n0 < m * q + m,
            m > 0,
    ;
    assert(r <= num) by (nonlinear_arith)
        requires
            m * r <= n1,
            n1 <= 2 * (den * num) + den - 1,
            m == 2 * den,
            den > 0,
            num >= 0,
    ;
}

/// The whole number that is nearest to a quotient is its rounded value.
proof fn lemma_rounded(num: int, den: int, q: int)
    requires
        den > 0,
        -den < 2 * (num - q * den) <= den,
    ensures
        rounded(num, den) == q,
{
    let n = 2 * num + den - 1;
    let m = 2 * den;
    let r = n - q * m;
    assert(q * m == 2 * (q * den)) by (nonlinear_arith)
        requires
            m == 2 * den,
    ;
    vstd::arithmetic::div_mod::lemma_fundamental_div_mod_converse(n, m, q, r);
}

/// A state of the walk along the line is the point of the line at its
/// step.
proof fn lemma_on_the_line(from: Point, to: Point, i: int, a: int, b: int, d: int)
    requires
        0 <= a <= span(from.x, to.x),
        0 <= b <= span(from.y, to.y),
        d == a * span(from.y, to.y) - b * span(from.x, to.x),
        span(from.x, to.x) >= span(from.y, to.y) ==> a == i,
        span(from.x, to.x) >= span(from.y, to.y) && span(from.x, to.x) > 0 ==> -span(
            from.x,
            to.x,
        ) < 2 * d <= span(from.x, to.x),
        span(from.x, to.x) < span(from.y, to.y) ==> b == i,
        span(from.x, to.x) < span(from.y, to.y) ==> -span(from.y, to.y) < -2 * d <= span(
            from.y,
            to.y,
        ),
    ensures
        line_point(from, to, i).x == toward(from.x, to.x, a),
        line_point(from, to, i).y == toward(from.y, to.y, b),
        is_coord(toward(from.x, to.x, a)),
        is_coord(toward(from.y, to.y, b)),
{
    let dx = span(from.x, to.x);
    let ey = span(from.y, to.y);
    if dx == 0 && ey == 0 {
    } else if dx >= ey {
        lemma_rounded(i * ey, dx, b);
    } else {
        lemma_rounded(i * dx, ey, a);
    }
}

/// At the far end of the line the walk has made all its steps.
proof fn lemma_at_the_end(from: Point, to: Point, a: int, b: int)
    requires
        0 <= a <= span(from.x, to.x),
        0 <= b <= span(from.y, to.y),
        toward(from.x, to.x, a) == to.x,
        toward(from.y, to.y, b) == to.y,
    ensures
        a == span(from.x, to.x),
        b == span(from.y, to.y),
{
}

/// Before the far end of the line the walk has steps left along the longer
/// side.
proof fn lemma_not_at_the_end(from: Point, to: Point, a: int, b: int, d: int)
    requires
        0 <= a <= span(from.x, to.x),
        0 <= b <= span(from.y, to.y),
        d == a * span(from.y, to.y) - b * span(from.x, to.x),
        !(toward(from.x, to.x, a) == to.x && toward(from.y, to.y, b) == to.y),
        span(from.x, to.x) >= span(from.y, to.y) && span(from.x, to.x) > 0 ==> -span(
            from.x,
            to.x,
        ) < 2 * d <= span(from.x, to.x),
        span(from.x, to.x) < span(from.y, to.y) ==> -span(from.y, to.y) < -2 * d <= span(
            from.y,
            to.y,
        ),
    ensures
        span(from.x, to.x) >= span(from.y, to.y) ==> a < span(from.x, to.x),
        span(from.x, to.x) < span(from.y, to.y) ==> b < span(from.y, to.y),
{
    let dx = span(from.x, to.x);
    let ey = span(from.y, to.y);
    if dx >= ey {
        if a == dx {
            assert(dx > 0);
            assert(b == ey) by (nonlinear_arith)
                requires
                    d == dx * ey - b * dx,
                    -dx < 2 * d <= dx,
                    dx > 0,
                    0 <= b <= ey,
            ;
        }
    } else {
        if b == ey {
            assert(a == dx) by (nonlinear_arith)
                requires
                    d == a * ey - ey * dx,
                    -ey < -2 * d <= ey,
                    ey > 0,
                    0 <= a <= dx,
            ;
        }
    }
}

/// One step of the walk keeps it as near to the straight line as it was.
proof fn lemma_next_on_the_line(
    dx: int,
    ey: int,
    a0: int,
    b0: int,
    d0: int,
    a: int,
    b: int,
    d: int,
)
    requires
        0 <= ey,
        0 <= dx,
        dx > 0 || ey > 0,
        0 <= a0 <= dx,
        0 <= b0 <= ey,
        d0 == a0 * ey - b0 * dx,
        dx >= ey ==> a0 < dx && -dx < 2 * d0 <= dx && (ey == dx ==> d0 == 0),
        dx < ey ==> b0 < ey && -ey < -2 * d0 <= ey,
        a == if 2 * (dx - ey - d0) > -ey {
            a0 + 1
        } else {
            a0
        },
        b == if 2 * (dx - ey - d0) < dx {
            b0 + 1
        } else {
            b0
        },
        d == d0 + (if a > a0 {
            ey
        } else {
            0
        }) - (if b > b0 {
            dx
        } else {
            0
        }),
    ensures
        0 <= a <= dx,
        0 <= b <= ey,
        d == a * ey - b * dx,
        dx >= ey ==> a == a0 + 1 && -dx < 2 * d <= dx && (ey == dx ==> d == 0),
        dx < ey ==> b == b0 + 1 && -ey < -2 * d <= ey,
{
    assert(d == a * ey - b * dx) by (nonlinear_arith)
        requires
            d0 == a0 * ey - b0 * dx,
            a == a0 || a == a0 + 1,
            b == b0 || b == b0 + 1,
            d == d0 + (if a > a0 {
                ey
            } else {
                0
            }) - (if b > b0 {
                dx
            } else {
                0
            }),
    ;
    if dx >= ey {
        assert(a == a0 + 1);
        assert(-dx < 2 * d <= dx);
        assert(b <= ey) by (nonlinear_arith)
            requires
                d == a * ey - b * dx,
                -dx < 2 * d,
                0 <= a <= dx,
                dx > 0,
                0 <= ey,
        ;
    } else {
        assert(b == b0 + 1);
        assert(-ey < -2 * d <= ey);
        assert(a <= dx) by (nonlinear_arith)
            requires
                d == a * ey - b * dx,
                -2 * d > -ey,
                0 <= b <= ey,
                ey > 0,
                0 <= dx,
        ;
    }
}

/// `v / 2`, rounded towards zero.
pub open spec fn half_toward_zero(v: int) -> int {
    if v >= 0 {
        v / 2
    } else {
        -((-v) / 2)
    }
}

/// Row `row` and column `col` of a grid `w` wide sit at index `row * w + col`.
proof fn lemma_row_major(i: int, w: int, row: int, col: int)
    requires
        w > 0,
        0 <= col < w,
        0 <= row,
        i == row * w + col,
    ensures
        i / w == row,
        i % w == col,
        i >= 0,
{
    vstd::arithmetic::div_mod::lemma_fundamental_div_mod_converse(i, w, row, col);
    assert(row * w >= 0) by (nonlinear_arith)
        requires
            row >= 0,
            w > 0,
    ;
}

impl From<(i32, i32, i32, i32)> for Rectangle {
    /// The rectangle with corner `(x, y)` that reaches `w` to the right and
    /// `h` down; the far corner wraps around where it leaves the range of
    /// `i32`.
    fn from(xywh: (i32, i32, i32, i32)) -> (r: Rectangle) {
        Rectangle {
            x1: xywh.0,
            y1: xywh.1,
            x2: xywh.0.wrapping_add(xywh.2),
            y2: xywh.1.wrapping_add(xywh.3),
        }
    }
}

impl FromSpecImpl<(i32, i32, i32, i32)> for Rectangle {
    open spec fn obeys_from_spec() -> bool {
        true
    }

    open spec fn from_spec(xywh: (i32, i32, i32, i32)) -> Rectangle {
        Rectangle {
            x1: xywh.0,
            y1: xywh.1,
            x2: vstd::wrapping::i32_specs::wrapping_add(xywh.0, xywh.2),
            y2: vstd::wrapping::i32_specs::wrapping_add(xywh.1, xywh.3),
        }
    }
}

} // verus!
