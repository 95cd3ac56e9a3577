//! The snake: its segments from head to tail, the direction it travels in,
//! and the steering intents that wait for the next tick.

use crate::food::occupied;
use crate::geometry::{Direction, Point};
use crate::input::{remaining, resolved, InputBuffer};
use std::collections::VecDeque;
use vstd::prelude::*;

verus! {

/// Why a list of cells cannot be a snake's body.
#[derive(Clone, Copy, Debug, PartialEq, Eq, Structural)]
pub enum BodyError {
    /// The list holds no cell.
    Empty,
    /// Two entries of the list are the same cell.
    Overlapping,
}

/// What a snake is, to the contracts.
pub struct SnakeView {
    /// The cells the snake lies on, the head first and the tail last.
    pub segments: Seq<Point>,
    /// The direction of the most recent tick.
    pub direction: Direction,
    /// The steering intents not yet looked at, oldest first.
    pub pending: Seq<Direction>,
}

/// Whether `segments` can be a snake's body: at least the head, and no cell
/// twice.
pub open spec fn valid_body(segments: Seq<Point>) -> bool {
    segments.len() >= 1 && segments.no_duplicates()
}

/// The error that a list of cells is turned down with, or `None` where it
/// can be a snake's body.
pub open spec fn body_error(segments: Seq<Point>) -> Option<BodyError> {
    if segments.len() == 0 {
        Some(BodyError::Empty)
    } else if !segments.no_duplicates() {
        Some(BodyError::Overlapping)
    } else {
        None
    }
}

/// Whether a head that moves onto `p` runs into the snake. The tail's cell
/// is left in the same tick and counts only where the snake grows, for then
/// the tail stays.
pub open spec fn blocked(segments: Seq<Point>, p: Point, grow: bool) -> bool {
    if grow {
        segments.contains(p)
    } else {
        segments.drop_last().contains(p)
    }
}

/// The segments after a move of the head onto `p`: every segment takes the
/// place of the one before it, and the tail's cell is kept as a new last
/// segment where the snake grows.
pub open spec fn shifted(segments: Seq<Point>, p: Point, grow: bool) -> Seq<Point> {
    if grow {
        seq![p] + segments
    } else {
        seq![p] + segments.drop_last()
    }
}

/// The snake after it has picked the direction of the next tick.
pub open spec fn steered(snake: SnakeView) -> SnakeView {
    SnakeView {
        segments: snake.segments,
        direction: resolved(snake.pending, snake.direction),
        pending: remaining(snake.pending, snake.direction),
    }
}

/// A move onto a cell that does not block it leaves a valid body, one longer
/// where the snake grows and of the same length where it does not.
pub proof fn lemma_shifted_valid(segments: Seq<Point>, p: Point, grow: bool)
    requires
        valid_body(segments),
        !blocked(segments, p, grow),
    ensures
        valid_body(shifted(segments, p, grow)),
        shifted(segments, p, grow).len() == segments.len() + (if grow { 1int } else { 0int }),
        shifted(segments, p, grow).first() == p,
        forall|q: Point|
            shifted(segments, p, grow).contains(q) <==> (q == p || blocked(segments, q, grow)),
{
    let kept = if grow { segments } else { segments.drop_last() };
    let next = shifted(segments, p, grow);
    assert(next == seq![p] + kept);
    assert forall|i: int, j: int| 0 <= i < next.len() && 0 <= j < next.len() && i != j implies next[i]
        != next[j] by {
        if i > 0 {
            assert(next[i] == kept[i - 1]);
            assert(kept.contains(next[i]));
        }
        if j > 0 {
            assert(next[j] == kept[j - 1]);
            assert(kept.contains(next[j]));
        }
    }
    assert forall|q: Point| next.contains(q) <==> (q == p || kept.contains(q)) by {
        if next.contains(q) {
            let i = choose|i: int| 0 <= i < next.len() && next[i] == q;
            if i > 0 {
                assert(kept[i - 1] == q);
            }
        }
        if q == p {
            assert(next[0] == q);
        }
        if kept.contains(q) {
            let i = choose|i: int| 0 <= i < kept.len() && kept[i] == q;
            assert(next[i + 1] == q);
        }
    }
}

/// Whether two entries of `cells` are the same cell.
pub fn has_repeat(cells: &Vec<Point>) -> (b: bool)
    ensures
        b == !cells@.no_duplicates(),
{
    let n: usize = cells.len();
    let mut i: usize = 0;
    while i < n
        invariant
            0 <= i <= n,
            n == cells@.len(),
            forall|a: int, c: int| 0 <= a < i && a < c < n ==> cells@[a] != cells@[c],
        decreases n - i,
    {
        let mut j: usize = i + 1;
        while j < n
            invariant
                0 <= i < j <= n,
                n == cells@.len(),
                forall|c: int| i < c < j ==> cells@[i as int] != cells@[c],
            decreases n - j,
        {
            if cells[i] == cells[j] {
                assert(cells@[i as int] == cells@[j as int]);
                return true;
            }
            j += 1;
        }
        i += 1;
    }
    assert forall|a: int, c: int| 0 <= a < n && 0 <= c < n && a != c implies cells@[a] != cells@[c] by {
        if a < c {
            assert(cells@[a] != cells@[c]);
        } else {
            assert(cells@[c] != cells@[a]);
        }
    }
    false
}

/// The player's snake.
pub struct Snake {
    segments: VecDeque<Point>,
    direction: Direction,
    input: InputBuffer,
}

impl View for Snake {
    type V = SnakeView;

    closed spec fn view(&self) -> SnakeView {
        SnakeView {
            segments: self.segments@,
            direction: self.direction,
            pending: self.input@,
        }
    }
}

impl Snake {
    /// The snake's invariant: it has a head, and no two of its segments lie
    /// on one cell.
    pub open spec fn wf(&self) -> bool {
        valid_body(self@.segments)
    }

    /// A snake that lies on `body`, head first, travels in `direction` and
    /// has nothing buffered. Turned down where `body` is empty or holds a
    /// cell twice.
    pub fn new(body: &Vec<Point>, direction: Direction) -> (r: Result<Snake, BodyError>)
        ensures
            match r {
                Ok(snake) => {
                    &&& body_error(body@).is_none()
                    &&& snake.wf()
                    &&& snake@.segments == body@
                    &&& snake@.direction == direction
                    &&& snake@.pending == Seq::<Direction>::empty()
                },
                Err(e) => body_error(body@) == Some(e),
            },
    {
        let n: usize = body.len();
        if n == 0 {
            return Err(BodyError::Empty);
        }
        if has_repeat(body) {
            return Err(BodyError::Overlapping);
        }
        let mut segments: VecDeque<Point> = VecDeque::new();
        let mut i: usize = 0;
        while i < n
            invariant
                0 <= i <= n,
                n == body@.len(),
                segments@ == body@.subrange(0, i as int),
            decreases n - i,
        {
            segments.push_back(body[i]);
            assert(segments@ == body@.subrange(0, i as int + 1));
            i += 1;
        }
        assert(segments@ == body@);
        Ok(Snake { segments, direction, input: InputBuffer::new() })
    }

    /// The cell of the head.
    pub fn head(&self) -> (p: Point)
        requires
            self.wf(),
        ensures
            p == self@.segments.first(),
    {
        self.segments[0]
    }

    /// The number of segments, the head included.
    pub fn len(&self) -> (n: usize)
        ensures
            n == self@.segments.len(),
    {
        self.segments.len()
    }

    /// The direction of the most recent tick.
    pub fn direction(&self) -> (d: Direction)
        ensures
            d == self@.direction,
    {
        self.direction
    }

    /// The number of steering intents that wait.
    pub fn pending_len(&self) -> (n: usize)
        ensures
            n == self@.pending.len(),
    {
        self.input.len()
    }

    /// The cells the snake lies on, the head first.
    pub fn body(&self) -> (cells: Vec<Point>)
        ensures
            cells@ == self@.segments,
    {
        let n: usize = self.segments.len();
        let mut cells: Vec<Point> = Vec::new();
        let mut i: usize = 0;
        while i < n
            invariant
                0 <= i <= n,
                n == self.segments@.len(),
                cells@ == self.segments@.subrange(0, i as int),
            decreases n - i,
        {
            cells.push(self.segments[i]);
            assert(cells@ == self.segments@.subrange(0, i as int + 1));
            i += 1;
        }
        assert(cells@ == self.segments@);
        cells
    }

    /// The segments as they are held, the head first.
    pub fn cells(&self) -> (cells: &VecDeque<Point>)
        ensures
            cells@ == self@.segments,
    {
        &self.segments
    }

    /// Whether a segment of the snake lies on `p`.
    pub fn occupies(&self, p: Point) -> (b: bool)
        ensures
            b == self@.segments.contains(p),
    {
        occupied(&self.segments, p)
    }

    /// Whether a head that moves onto `p` runs into the snake, which grows
    /// in that move or does not.
    pub fn hits(&self, p: Point, grow: bool) -> (b: bool)
        requires
            self.wf(),
        ensures
            b == blocked(self@.segments, p, grow),
    {
        let n: usize = self.segments.len();
        let last: usize = n - 1;
        let ghost kept = self.segments@.drop_last();
        let mut i: usize = 0;
        while i < last
            invariant
                0 <= i <= last,
                last + 1 == self.segments@.len(),
                kept == self.segments@.drop_last(),
                forall|j: int| 0 <= j < i ==> kept[j] != p,
            decreases last - i,
        {
            if self.segments[i] == p {
                assert(kept[i as int] == p);
                assert(self.segments@[i as int] == p);
                return true;
            }
            i += 1;
        }
        assert(!kept.contains(p));
        let at_tail = self.segments[last] == p;
        proof {
            if at_tail {
                assert(self.segments@[last as int] == p);
            }
            if self.segments@.contains(p) {
                let j = choose|j: int| 0 <= j < self.segments@.len() && self.segments@[j] == p;
                if j < last {
                    assert(kept[j] == p);
                }
            }
        }
        grow && at_tail
    }

    /// Appends a steering intent behind all that wait.
    pub fn push_direction(&mut self, direction: Direction)
        ensures
            final(self)@.segments == old(self)@.segments,
            final(self)@.direction == old(self)@.direction,
            final(self)@.pending == old(self)@.pending.push(direction),
    {
        self.input.push(direction);
    }

    /// Picks the direction of the next tick from the intents that wait, and
    /// makes it the snake's direction. The course is never reversed.
    pub fn steer(&mut self) -> (d: Direction)
        ensures
            final(self)@ == steered(old(self)@),
            d == final(self)@.direction,
            d != old(self)@.direction.spec_opposite(),
    {
        let d = self.input.resolve(self.direction);
        self.direction = d;
        d
    }

    /// Moves the head onto `p`, unless the snake is in the way there; every
    /// segment follows the one before it, and where the snake grows the
    /// tail's cell is kept as a new last segment. Returns whether the snake
    /// has moved; where it has not, it is as it was.
    pub fn advance(&mut self, p: Point, grow: bool) -> (moved: bool)
        requires
            old(self).wf(),
        ensures
            final(self).wf(),
            moved == !blocked(old(self)@.segments, p, grow),
            moved ==> final(self)@.segments == shifted(old(self)@.segments, p, grow),
            !moved ==> final(self)@.segments == old(self)@.segments,
            final(self)@.segments.len() <= usize::MAX,
            final(self)@.direction == old(self)@.direction,
            final(self)@.pending == old(self)@.pending,
    {
        proof {
            vstd::std_specs::vecdeque::axiom_spec_len(&self.segments);
        }
        if self.hits(p, grow) {
            return false;
        }
        proof {
            lemma_shifted_valid(self@.segments, p, grow);
        }
        if !grow {
            let _ = self.segments.pop_back();
        }
        self.segments.push_front(p);
        proof {
            vstd::std_specs::vecdeque::axiom_spec_len(&self.segments);
        }
        true
    }
}

} // verus!
