//! Steering intents that arrive between two ticks, and the rule that picks
//! the one direction a tick travels in.

use crate::geometry::Direction;
use std::collections::VecDeque;
use vstd::prelude::*;

verus! {

/// Whether steering from `current` to `d` changes the course without
/// reversing it.
pub open spec fn is_turn(d: Direction, current: Direction) -> bool {
    d != current && d != current.spec_opposite()
}

/// The position in `queue` of the first entry that is a turn away from
/// `current`, or the length of `queue` where it holds none.
pub open spec fn first_turn(queue: Seq<Direction>, current: Direction) -> int
    decreases queue.len(),
{
    if queue.len() == 0 {
        0
    } else if is_turn(queue.first(), current) {
        0
    } else {
        1 + first_turn(queue.drop_first(), current)
    }
}

/// The direction of the next tick: the first turn in `queue`, or `current`
/// where `queue` holds none.
pub open spec fn resolved(queue: Seq<Direction>, current: Direction) -> Direction {
    let k = first_turn(queue, current);
    if k < queue.len() {
        queue[k]
    } else {
        current
    }
}

/// What is left of `queue` once the next tick's direction has been taken
/// from it: the entries behind the first turn.
pub open spec fn remaining(queue: Seq<Direction>, current: Direction) -> Seq<Direction> {
    let k = first_turn(queue, current);
    if k < queue.len() {
        queue.subrange(k + 1, queue.len() as int)
    } else {
        Seq::empty()
    }
}

/// `first_turn` lies within the queue's bounds, no entry before it is a
/// turn, and the entry at it is one.
pub proof fn lemma_first_turn(queue: Seq<Direction>, current: Direction)
    ensures
        0 <= first_turn(queue, current) <= queue.len(),
        forall|i: int| 0 <= i < first_turn(queue, current) ==> !is_turn(#[trigger] queue[i], current),
        first_turn(queue, current) < queue.len() ==> is_turn(
            queue[first_turn(queue, current)],
            current,
        ),
    decreases queue.len(),
{
    if queue.len() > 0 && !is_turn(queue.first(), current) {
        let rest = queue.drop_first();
        lemma_first_turn(rest, current);
        assert forall|i: int| 0 <= i < first_turn(queue, current) implies !is_turn(
            #[trigger] queue[i],
            current,
        ) by {
            if i > 0 {
                assert(queue[i] == rest[i - 1]);
            }
        }
        let k = first_turn(rest, current);
        if k < rest.len() {
            assert(queue[k + 1] == rest[k]);
        }
    }
}

/// A position `k` before which `queue` holds no turn, and which is a turn or
/// the queue's end, is `first_turn`.
pub proof fn lemma_first_turn_is(queue: Seq<Direction>, current: Direction, k: int)
    requires
        0 <= k <= queue.len(),
        forall|i: int| 0 <= i < k ==> !is_turn(#[trigger] queue[i], current),
        k < queue.len() ==> is_turn(queue[k], current),
    ensures
        first_turn(queue, current) == k,
{
    lemma_first_turn(queue, current);
    let f = first_turn(queue, current);
    if f < k {
        assert(!is_turn(queue[f], current));
    }
}

/// The direction picked for a tick never reverses the current one, whatever
/// the queue holds.
pub proof fn lemma_resolved_never_reverses(queue: Seq<Direction>, current: Direction)
    ensures
        resolved(queue, current) != current.spec_opposite(),
        resolved(queue, current) == current || is_turn(resolved(queue, current), current),
{
    lemma_first_turn(queue, current);
}

/// The steering intents that have arrived and not yet been looked at, oldest
/// first.
pub struct InputBuffer {
    pending: VecDeque<Direction>,
}

impl View for InputBuffer {
    type V = Seq<Direction>;

    closed spec fn view(&self) -> Seq<Direction> {
        self.pending@
    }
}

impl InputBuffer {
    /// A buffer that holds nothing.
    pub fn new() -> (buffer: InputBuffer)
        ensures
            buffer@ == Seq::<Direction>::empty(),
    {
        InputBuffer { pending: VecDeque::new() }
    }

    /// The number of intents that wait.
    pub fn len(&self) -> (n: usize)
        ensures
            n == self@.len(),
    {
        self.pending.len()
    }

    /// Whether no intent waits.
    pub fn is_empty(&self) -> (b: bool)
        ensures
            b == (self@.len() == 0),
    {
        self.pending.len() == 0
    }

    /// Appends `direction` behind all that wait. Nothing is filtered here.
    pub fn push(&mut self, direction: Direction)
        ensures
            final(self)@ == old(self)@.push(direction),
    {
        self.pending.push_back(direction);
    }

    /// Takes intents from the front until one is a turn away from `current`,
    /// and returns it; the ones before it are dropped with it. Where none is
    /// a turn, the buffer ends up empty and `current` is returned.
    pub fn resolve(&mut self, current: Direction) -> (next: Direction)
        ensures
            next == resolved(old(self)@, current),
            final(self)@ == remaining(old(self)@, current),
            next != current.spec_opposite(),
    {
        let ghost queue = self.pending@;
        let ghost mut taken: int = 0;
        let mut next = current;
        let mut found = false;
        while !found && self.pending.len() > 0
            invariant
                0 <= taken <= queue.len(),
                forall|i: int| 0 <= i < taken - (if found { 1int } else { 0int }) ==> !is_turn(
                    #[trigger] queue[i],
                    current,
                ),
                self.pending@ == queue.subrange(taken, queue.len() as int),
                found ==> taken >= 1 && next == queue[taken - 1] && is_turn(next, current),
                !found ==> next == current,
            decreases (if found { 0int } else { 1int }), self.pending@.len(),
        {
            let front = self.pending.pop_front();
            match front {
                Some(d) => {
                    assert(d == queue[taken]);
                    assert(self.pending@ == queue.subrange(taken + 1, queue.len() as int));
                    if d != current && d != current.opposite() {
                        next = d;
                        found = true;
                    }
                    proof {
                        taken = taken + 1;
                    }
                },
                None => {},
            }
        }
        proof {
            let k = if found { taken - 1 } else { taken };
            lemma_first_turn_is(queue, current, k);
            if !found {
                assert(self.pending@ == Seq::<Direction>::empty());
            }
            lemma_resolved_never_reverses(queue, current);
        }
        next
    }
}

} // verus!
