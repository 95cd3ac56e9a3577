//! Where the food goes: a cell of the grid on which no segment of the snake
//! lies, taken from a run of random draws where one of them is free, and
//! found by a scan of the grid where none is.

use crate::geometry::{in_grid, wrap, wrapped, Point};
use std::collections::VecDeque;
use vstd::prelude::*;

verus! {

/// Whether `p` is a cell of the grid that no entry of `segments` lies on.
pub open spec fn is_free(width: int, height: int, segments: Seq<Point>, p: Point) -> bool {
    in_grid(width, height, p) && !segments.contains(p)
}

/// Whether every cell of the grid has an entry of `segments` on it.
pub open spec fn grid_full(width: int, height: int, segments: Seq<Point>) -> bool {
    forall|p: Point| in_grid(width, height, p) ==> #[trigger] segments.contains(p)
}

/// Whether `a` comes before `b` when the grid is read row by row, each row
/// from its first column on.
pub open spec fn precedes(a: Point, b: Point) -> bool {
    a.y < b.y || (a.y == b.y && a.x < b.x)
}

/// Whether `p` is the free cell that a row-by-row reading of the grid
/// reaches first.
pub open spec fn is_first_free(width: int, height: int, segments: Seq<Point>, p: Point) -> bool {
    &&& is_free(width, height, segments, p)
    &&& forall|q: Point|
        in_grid(width, height, q) && precedes(q, p) ==> #[trigger] segments.contains(q)
}

/// The free cell that a row-by-row reading of the grid reaches first, or
/// `None` where the grid is full.
pub open spec fn first_free(width: int, height: int, segments: Seq<Point>) -> Option<Point> {
    if exists|p: Point| is_first_free(width, height, segments, p) {
        Some(choose|p: Point| is_first_free(width, height, segments, p))
    } else {
        None
    }
}

/// The cell that a random draw stands for: each coordinate taken modulo the
/// grid's extent on its axis.
pub open spec fn candidate(width: int, height: int, draw: Point) -> Point {
    Point { x: wrapped(draw.x as int, width) as i32, y: wrapped(draw.y as int, height) as i32 }
}

/// The cell for the food, given the random draws made for it: the cell of
/// the first draw that is free; where none is, the first free cell of the
/// grid; and `None` where the grid is full.
pub open spec fn placed_food(
    width: int,
    height: int,
    segments: Seq<Point>,
    draws: Seq<Point>,
) -> Option<Point>
    decreases draws.len(),
{
    if draws.len() == 0 {
        first_free(width, height, segments)
    } else if !segments.contains(candidate(width, height, draws.first())) {
        Some(candidate(width, height, draws.first()))
    } else {
        placed_food(width, height, segments, draws.drop_first())
    }
}

/// At most one cell is the first free one.
pub proof fn lemma_first_free_unique(
    width: int,
    height: int,
    segments: Seq<Point>,
    p: Point,
    q: Point,
)
    requires
        is_first_free(width, height, segments, p),
        is_first_free(width, height, segments, q),
    ensures
        p == q,
{
    if p != q {
        if precedes(p, q) {
            assert(segments.contains(p));
        } else {
            assert(precedes(q, p));
            assert(segments.contains(q));
        }
    }
}

/// A cell that is the first free one is what `first_free` names.
pub proof fn lemma_first_free_is(width: int, height: int, segments: Seq<Point>, p: Point)
    requires
        is_first_free(width, height, segments, p),
    ensures
        first_free(width, height, segments) == Some(p),
{
    let c = choose|c: Point| is_first_free(width, height, segments, c);
    lemma_first_free_unique(width, height, segments, p, c);
}

/// `first_free` names no cell where the grid is full.
pub proof fn lemma_first_free_none(width: int, height: int, segments: Seq<Point>)
    requires
        grid_full(width, height, segments),
    ensures
        first_free(width, height, segments).is_none(),
{
    if exists|p: Point| is_first_free(width, height, segments, p) {
        let p = choose|p: Point| is_first_free(width, height, segments, p);
        assert(segments.contains(p));
    }
}

/// Reading on from column `x` of row `y`, before which every cell is taken,
/// either comes to a first free cell or finds the grid full.
proof fn lemma_scan(width: int, height: int, segments: Seq<Point>, x: int, y: int)
    requires
        1 <= width <= i32::MAX,
        1 <= height <= i32::MAX,
        0 <= x <= width,
        0 <= y <= height,
        forall|q: Point|
            in_grid(width, height, q) && (q.y < y || (q.y == y && q.x < x))
                ==> #[trigger] segments.contains(q),
    ensures
        grid_full(width, height, segments) || exists|p: Point|
            is_first_free(width, height, segments, p),
    decreases height - y, width - x,
{
    if y >= height {
        assert(grid_full(width, height, segments));
    } else if x >= width {
        lemma_scan(width, height, segments, 0, y + 1);
    } else {
        let p = Point { x: x as i32, y: y as i32 };
        if segments.contains(p) {
            assert forall|q: Point|
                in_grid(width, height, q) && (q.y < y || (q.y == y && q.x < x + 1))
                    implies #[trigger] segments.contains(q) by {
                if q.y == y && q.x == x {
                    assert(q == p);
                }
            }
            lemma_scan(width, height, segments, x + 1, y);
        } else {
            assert(is_first_free(width, height, segments, p));
        }
    }
}

/// `first_free` names the first free cell, and names none exactly where the
/// grid is full.
pub proof fn lemma_first_free(width: int, height: int, segments: Seq<Point>)
    requires
        1 <= width <= i32::MAX,
        1 <= height <= i32::MAX,
    ensures
        first_free(width, height, segments).is_none() <==> grid_full(width, height, segments),
        first_free(width, height, segments).is_some() ==> is_first_free(
            width,
            height,
            segments,
            first_free(width, height, segments).unwrap(),
        ),
{
    if grid_full(width, height, segments) {
        lemma_first_free_none(width, height, segments);
    } else {
        lemma_scan(width, height, segments, 0, 0);
    }
}

/// The cell that a draw stands for lies in the grid.
pub proof fn lemma_candidate_in_grid(width: int, height: int, draw: Point)
    requires
        1 <= width <= i32::MAX,
        1 <= height <= i32::MAX,
    ensures
        in_grid(width, height, candidate(width, height, draw)),
        candidate(width, height, draw).x == wrapped(draw.x as int, width),
        candidate(width, height, draw).y == wrapped(draw.y as int, height),
{
    vstd::arithmetic::div_mod::lemma_mod_bound(draw.x as int, width);
    vstd::arithmetic::div_mod::lemma_mod_bound(draw.y as int, height);
}

/// Whether an entry of `segments` lies on `p`.
pub fn occupied(segments: &VecDeque<Point>, p: Point) -> (b: bool)
    ensures
        b == segments@.contains(p),
{
    let n: usize = segments.len();
    let mut i: usize = 0;
    while i < n
        invariant
            n == segments@.len(),
            0 <= i <= n,
            forall|j: int| 0 <= j < i ==> segments@[j] != p,
        decreases n - i,
    {
        if segments[i] == p {
            assert(segments@[i as int] == p);
            return true;
        }
        i += 1;
    }
    false
}

/// The cell that a random draw stands for.
pub fn candidate_cell(width: i32, height: i32, draw: Point) -> (c: Point)
    requires
        width >= 1,
        height >= 1,
    ensures
        c == candidate(width as int, height as int, draw),
        in_grid(width as int, height as int, c),
{
    proof {
        lemma_candidate_in_grid(width as int, height as int, draw);
    }
    Point { x: wrap(draw.x as i64, width), y: wrap(draw.y as i64, height) }
}

/// Reads the grid row by row and returns the first cell on which no entry
/// of `segments` lies, or `None` where there is no such cell.
pub fn first_free_cell(width: i32, height: i32, segments: &VecDeque<Point>) -> (r: Option<Point>)
    requires
        width >= 1,
        height >= 1,
    ensures
        r == first_free(width as int, height as int, segments@),
        r.is_none() <==> grid_full(width as int, height as int, segments@),
        r.is_some() ==> is_first_free(width as int, height as int, segments@, r.unwrap()),
{
    let ghost w = width as int;
    let ghost h = height as int;
    let mut y: i32 = 0;
    while y < height
        invariant
            0 <= y <= height,
            w == width as int,
            h == height as int,
            width >= 1,
            forall|q: Point| in_grid(w, h, q) && q.y < y ==> #[trigger] segments@.contains(q),
        decreases height - y,
    {
        let mut x: i32 = 0;
        while x < width
            invariant
                0 <= y < height,
                0 <= x <= width,
                w == width as int,
                h == height as int,
                forall|q: Point|
                    in_grid(w, h, q) && precedes(q, Point { x, y }) ==> #[trigger] segments@.contains(
                        q,
                    ),
            decreases width - x,
        {
            let p = Point { x, y };
            if !occupied(segments, p) {
                proof {
                    lemma_first_free_is(w, h, segments@, p);
                }
                return Some(p);
            }
            assert forall|q: Point|
                in_grid(w, h, q) && precedes(q, Point { x: (x + 1) as i32, y }) implies #[trigger] segments@.contains(
                q,
            ) by {
                if q != p {
                    assert(precedes(q, p));
                }
            }
            x += 1;
        }
        y += 1;
    }
    proof {
        assert(grid_full(w, h, segments@));
        lemma_first_free_none(w, h, segments@);
    }
    None
}

/// The cell for the food, given the random draws made for it.
pub fn place_food(width: i32, height: i32, segments: &VecDeque<Point>, draws: &Vec<Point>) -> (r:
    Option<Point>)
    requires
        width >= 1,
        height >= 1,
    ensures
        r == placed_food(width as int, height as int, segments@, draws@),
        r.is_none() <==> grid_full(width as int, height as int, segments@),
        r.is_some() ==> is_free(width as int, height as int, segments@, r.unwrap()),
{
    let ghost w = width as int;
    let ghost h = height as int;
    let n: usize = draws.len();
    let mut i: usize = 0;
    assert(draws@.subrange(0, n as int) == draws@);
    while i < n
        invariant
            0 <= i <= n,
            n == draws@.len(),
            w == width as int,
            h == height as int,
            width >= 1,
            height >= 1,
            placed_food(w, h, segments@, draws@) == placed_food(
                w,
                h,
                segments@,
                draws@.subrange(i as int, n as int),
            ),
        decreases n - i,
    {
        let c = candidate_cell(width, height, draws[i]);
        let ghost rest = draws@.subrange(i as int, n as int);
        assert(rest.first() == draws@[i as int]);
        if !occupied(segments, c) {
            assert(!grid_full(w, h, segments@));
            return Some(c);
        }
        assert(rest.drop_first() == draws@.subrange(i as int + 1, n as int));
        i += 1;
    }
    assert(draws@.subrange(n as int, n as int).len() == 0);
    first_free_cell(width, height, segments)
}

} // verus!
