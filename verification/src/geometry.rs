//! Grid coordinates and the four directions of travel.

use vstd::arithmetic::div_mod::{
    lemma_fundamental_div_mod, lemma_fundamental_div_mod_converse_mod, lemma_mod_bound,
};
use vstd::prelude::*;

verus! {

/// A cell of the grid, or an offset between two cells.
#[derive(Clone, Copy, Debug, PartialEq, Eq, Structural)]
pub struct Point {
    pub x: i32,
    pub y: i32,
}

impl Point {
    /// The cell in column `x` and row `y`.
    pub fn new(x: i32, y: i32) -> (p: Point)
        ensures
            p.x == x,
            p.y == y,
    {
        Point { x, y }
    }
}

/// One of the four directions in which the snake can travel. Rows are counted
/// downwards, so `Up` leads to the row with the next smaller number.
#[derive(Clone, Copy, Debug, PartialEq, Eq, Hash, Structural)]
pub enum Direction {
    Up,
    Down,
    Left,
    Right,
}

impl Direction {
    /// The direction that leads straight back.
    pub open spec fn spec_opposite(self) -> Direction {
        match self {
            Direction::Up => Direction::Down,
            Direction::Down => Direction::Up,
            Direction::Left => Direction::Right,
            Direction::Right => Direction::Left,
        }
    }

    /// The change of the column number on one step in this direction.
    pub open spec fn spec_dx(self) -> int {
        match self {
            Direction::Left => -1,
            Direction::Right => 1,
            _ => 0,
        }
    }

    /// The change of the row number on one step in this direction.
    pub open spec fn spec_dy(self) -> int {
        match self {
            Direction::Up => -1,
            Direction::Down => 1,
            _ => 0,
        }
    }

    /// Two directions form a reversal pair when the unit vector of one is the
    /// negation of the other's.
    pub open spec fn is_reversal_of(self, other: Direction) -> bool {
        self.spec_dx() == -other.spec_dx() && self.spec_dy() == -other.spec_dy()
    }

    /// The direction that leads straight back.
    #[verifier::when_used_as_spec(spec_opposite)]
    pub fn opposite(self) -> (r: Direction)
        ensures
            r == self.spec_opposite(),
    {
        match self {
            Direction::Up => Direction::Down,
            Direction::Down => Direction::Up,
            Direction::Left => Direction::Right,
            Direction::Right => Direction::Left,
        }
    }

    /// The change of the column number on one step in this direction.
    pub fn dx(self) -> (r: i32)
        ensures
            r as int == self.spec_dx(),
    {
        match self {
            Direction::Left => -1,
            Direction::Right => 1,
            _ => 0,
        }
    }

    /// The change of the row number on one step in this direction.
    pub fn dy(self) -> (r: i32)
        ensures
            r as int == self.spec_dy(),
    {
        match self {
            Direction::Up => -1,
            Direction::Down => 1,
            _ => 0,
        }
    }

    /// The unit vector of this direction.
    pub fn unit_vector(self) -> (p: Point)
        ensures
            p.x as int == self.spec_dx(),
            p.y as int == self.spec_dy(),
    {
        Point { x: self.dx(), y: self.dy() }
    }
}

/// What happens at the edge of the grid.
#[derive(Clone, Copy, Debug, PartialEq, Eq, Structural)]
pub enum BoundaryPolicy {
    /// A step over an edge leads to the cell at the opposite edge.
    Wraparound,
    /// A step over an edge is a collision.
    Walled,
}

/// Whether `p` is a cell of the grid with `width` columns and `height` rows.
pub open spec fn in_grid(width: int, height: int, p: Point) -> bool {
    0 <= p.x < width && 0 <= p.y < height
}

/// The opposite of a direction is the one direction that forms a reversal
/// pair with it, and taking the opposite twice gives the direction back.
pub proof fn lemma_opposite_is_reversal(d: Direction, e: Direction)
    ensures
        e.is_reversal_of(d) <==> e == d.spec_opposite(),
        d.spec_opposite().spec_opposite() == d,
        d.spec_opposite() != d,
{
}

/// The remainder of `v` by `n` that lies in `[0, n)`, also for negative `v`.
pub open spec fn wrapped(v: int, n: int) -> int {
    v % n
}

/// Relates the remainder that rounds towards zero to the one that is never
/// negative: for a negative `v` the first is `-((-v) % n)`, and adding `n` to
/// it, where it is not zero, gives `v % n`.
proof fn lemma_truncated_remainder(v: int, n: int)
    requires
        n >= 1,
    ensures
        0 <= v % n < n,
        v < 0 && (-v) % n == 0 ==> v % n == 0,
        v < 0 && (-v) % n != 0 ==> v % n == n - (-v) % n,
{
    lemma_mod_bound(v, n);
    if v < 0 {
        let a = -v;
        let q = a / n;
        let s = a % n;
        lemma_fundamental_div_mod(a, n);
        lemma_mod_bound(a, n);
        assert(a == n * q + s);
        if s == 0 {
            assert(v == (-q) * n + 0) by (nonlinear_arith)
                requires
                    a == n * q + s,
                    s == 0,
                    v == -a,
            ;
            lemma_fundamental_div_mod_converse_mod(v, n, -q, 0);
        } else {
            assert(v == (-q - 1) * n + (n - s)) by (nonlinear_arith)
                requires
                    a == n * q + s,
                    v == -a,
            ;
            lemma_fundamental_div_mod_converse_mod(v, n, -q - 1, n - s);
        }
    }
}

/// A number that lies in `[0, n)` is left as it is.
pub proof fn lemma_wrapped_small(v: int, n: int)
    requires
        0 <= v < n,
    ensures
        wrapped(v, n) == v,
{
    lemma_fundamental_div_mod_converse_mod(v, n, 0, v);
}

/// Maps `v` into `[0, n)` by taking it modulo `n`.
pub fn wrap(v: i64, n: i32) -> (r: i32)
    requires
        n >= 1,
    ensures
        r as int == wrapped(v as int, n as int),
        0 <= r < n,
{
    let m: i64 = n as i64;
    let t: i64 = v % m;
    let r: i64 = if t < 0 { t + m } else { t };
    proof {
        lemma_truncated_remainder(v as int, m as int);
    }
    r as i32
}

/// The cell one step from `from` in `direction`. Under `Wraparound` each
/// coordinate is taken modulo the grid's extent; under `Walled` there is no
/// such cell where the step leaves the grid.
pub open spec fn neighbour(
    width: int,
    height: int,
    policy: BoundaryPolicy,
    from: Point,
    direction: Direction,
) -> Option<Point> {
    let x = from.x + direction.spec_dx();
    let y = from.y + direction.spec_dy();
    match policy {
        BoundaryPolicy::Wraparound => Some(
            Point { x: wrapped(x, width) as i32, y: wrapped(y, height) as i32 },
        ),
        BoundaryPolicy::Walled => if 0 <= x < width && 0 <= y < height {
            Some(Point { x: x as i32, y: y as i32 })
        } else {
            None
        },
    }
}

/// The cell one step from `from` in `direction`, or `None` where a wall is
/// in the way.
pub fn step_from(
    width: i32,
    height: i32,
    policy: BoundaryPolicy,
    from: Point,
    direction: Direction,
) -> (r: Option<Point>)
    requires
        width >= 1,
        height >= 1,
    ensures
        r == neighbour(width as int, height as int, policy, from, direction),
        r.is_some() ==> in_grid(width as int, height as int, r.unwrap()),
        r.is_none() ==> policy == BoundaryPolicy::Walled,
{
    let x: i64 = from.x as i64 + direction.dx() as i64;
    let y: i64 = from.y as i64 + direction.dy() as i64;
    match policy {
        BoundaryPolicy::Wraparound => Some(Point { x: wrap(x, width), y: wrap(y, height) }),
        BoundaryPolicy::Walled => {
            if 0 <= x && x < width as i64 && 0 <= y && y < height as i64 {
                Some(Point { x: x as i32, y: y as i32 })
            } else {
                None
            }
        },
    }
}

} // verus!
