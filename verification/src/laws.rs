//! What holds of every tick, whatever the state and whatever the random
//! draws made for the food.

use crate::engine::{
    advanced, collides, draws_of, eats, heading, next_head, respawn_due, result_of, ticked,
    ticked_by_seed, valid_state, GameView, TickResult,
};
use crate::food::{grid_full, is_free, placed_food};
use crate::geometry::{
    in_grid, lemma_wrapped_small, neighbour, wrapped, BoundaryPolicy, Direction, Point,
};
use crate::input::lemma_resolved_never_reverses;
use crate::random::{lemma_food_drawn_is_placed, FOOD_DRAWS};
use crate::snake::{blocked, lemma_shifted_valid, steered};
use vstd::prelude::*;

verus! {

/// The cell picked for the food is free, and there is none to pick exactly
/// where the grid is full.
pub proof fn lemma_placed_food_is_free(
    width: int,
    height: int,
    segments: Seq<Point>,
    draws: Seq<Point>,
)
    requires
        1 <= width <= i32::MAX,
        1 <= height <= i32::MAX,
    ensures
        placed_food(width, height, segments, draws).is_none() <==> grid_full(
            width,
            height,
            segments,
        ),
        placed_food(width, height, segments, draws).is_some() ==> is_free(
            width,
            height,
            segments,
            placed_food(width, height, segments, draws).unwrap(),
        ),
    decreases draws.len(),
{
    if draws.len() == 0 {
        crate::food::lemma_first_free(width, height, segments);
    } else {
        crate::food::lemma_candidate_in_grid(width, height, draws.first());
        lemma_placed_food_is_free(width, height, segments, draws.drop_first());
    }
}

/// The direction that a tick travels in is never the reverse of the one
/// before it, whatever was buffered.
pub proof fn lemma_tick_never_reverses(v: GameView, draws: Seq<Point>)
    ensures
        ticked(v, draws).snake.direction != v.snake.direction.spec_opposite(),
        !v.over ==> ticked(v, draws).snake.direction == heading(v),
{
    lemma_resolved_never_reverses(v.snake.pending, v.snake.direction);
}

/// A tick in which the snake eats makes it one segment longer and adds one
/// to the score; every other tick leaves the length and the score as they
/// are.
pub proof fn lemma_tick_length(v: GameView, draws: Seq<Point>)
    requires
        valid_state(v),
    ensures
        ticked(v, draws).snake.segments.len() == v.snake.segments.len() + (if respawn_due(v) {
            1int
        } else {
            0int
        }),
        ticked(v, draws).score == v.score + (if respawn_due(v) {
            1int
        } else {
            0int
        }),
        !v.over ==> (respawn_due(v) <==> eats(v)),
{
    if !v.over && !collides(v) {
        lemma_shifted_valid(v.snake.segments, next_head(v).unwrap(), eats(v));
    }
    if !v.over && eats(v) {
        assert(!blocked(v.snake.segments, v.food, true));
    }
}

/// A tick keeps the game's invariant. In particular, after a tick that
/// leaves the game running the food lies in the grid, not under the head and
/// on no other segment of the snake.
pub proof fn lemma_tick_keeps_valid(v: GameView, draws: Seq<Point>)
    requires
        valid_state(v),
    ensures
        valid_state(ticked(v, draws)),
        !ticked(v, draws).over ==> {
            let w = ticked(v, draws);
            &&& in_grid(w.width, w.height, w.food)
            &&& w.food != w.snake.segments.first()
            &&& !w.snake.segments.contains(w.food)
        },
{
    let w = ticked(v, draws);
    if !v.over && !collides(v) {
        let p = next_head(v).unwrap();
        lemma_shifted_valid(v.snake.segments, p, eats(v));
        let moved = advanced(v);
        if eats(v) {
            lemma_placed_food_is_free(moved.width, moved.height, moved.snake.segments, draws);
        } else {
            assert(moved.snake.segments.contains(v.food) <==> (v.food == p || blocked(
                v.snake.segments,
                v.food,
                false,
            )));
            if v.snake.segments.drop_last().contains(v.food) {
                let i = choose|i: int|
                    0 <= i < v.snake.segments.drop_last().len() && v.snake.segments.drop_last()[i]
                        == v.food;
                assert(v.snake.segments[i] == v.food);
            }
        }
    }
    if !w.over {
        assert(w.snake.segments[0] == w.snake.segments.first());
    }
}

/// Under the wraparound policy a step off the last column leads to the
/// first, a step off the first to the last, and the same holds of the rows.
pub proof fn lemma_wraparound_edges(width: int, height: int, from: Point)
    requires
        1 <= width <= i32::MAX,
        1 <= height <= i32::MAX,
        in_grid(width, height, from),
    ensures
        from.x == width - 1 ==> neighbour(
            width,
            height,
            BoundaryPolicy::Wraparound,
            from,
            Direction::Right,
        ) == Some(Point { x: 0, y: from.y }),
        from.x == 0 ==> neighbour(width, height, BoundaryPolicy::Wraparound, from, Direction::Left)
            == Some(Point { x: (width - 1) as i32, y: from.y }),
        from.y == height - 1 ==> neighbour(
            width,
            height,
            BoundaryPolicy::Wraparound,
            from,
            Direction::Down,
        ) == Some(Point { x: from.x, y: 0 }),
        from.y == 0 ==> neighbour(width, height, BoundaryPolicy::Wraparound, from, Direction::Up)
            == Some(Point { x: from.x, y: (height - 1) as i32 }),
{
    lemma_wrapped_small(from.x as int, width);
    lemma_wrapped_small(from.y as int, height);
    vstd::arithmetic::div_mod::lemma_mod_self_0(width);
    vstd::arithmetic::div_mod::lemma_mod_self_0(height);
    assert(wrapped(width, width) == 0);
    assert(wrapped(height, height) == 0);
    assert(wrapped(-1, width) == width - 1) by {
        vstd::arithmetic::div_mod::lemma_fundamental_div_mod_converse_mod(-1, width, -1, width - 1);
    }
    assert(wrapped(-1, height) == height - 1) by {
        vstd::arithmetic::div_mod::lemma_fundamental_div_mod_converse_mod(
            -1,
            height,
            -1,
            height - 1,
        );
    }
}

/// Under the wraparound policy a step that stays in the grid leads to the
/// cell next to it, as it does under the walled policy.
pub proof fn lemma_step_inside(
    width: int,
    height: int,
    policy: BoundaryPolicy,
    from: Point,
    direction: Direction,
)
    requires
        1 <= width <= i32::MAX,
        1 <= height <= i32::MAX,
        0 <= from.x + direction.spec_dx() < width,
        0 <= from.y + direction.spec_dy() < height,
    ensures
        neighbour(width, height, policy, from, direction) == Some(
            Point {
                x: (from.x + direction.spec_dx()) as i32,
                y: (from.y + direction.spec_dy()) as i32,
            },
        ),
{
    lemma_wrapped_small(from.x + direction.spec_dx(), width);
    lemma_wrapped_small(from.y + direction.spec_dy(), height);
}

/// Under the walled policy a tick whose move leaves the grid ends the game;
/// the snake, the food and the score stay where they were.
pub proof fn lemma_wall_is_fatal(v: GameView, draws: Seq<Point>)
    requires
        valid_state(v),
        !v.over,
        v.policy == BoundaryPolicy::Walled,
        !(0 <= v.snake.segments.first().x + heading(v).spec_dx() < v.width) || !(0
            <= v.snake.segments.first().y + heading(v).spec_dy() < v.height),
    ensures
        next_head(v).is_none(),
        result_of(ticked(v, draws)) == TickResult::GameOver,
        ticked(v, draws) == (GameView { snake: steered(v.snake), over: true, ..v }),
{
}

/// A tick that takes the head onto a cell of the snake other than the
/// tail's ends the game, whatever the draws; the snake, the food and the
/// score stay where they were.
pub proof fn lemma_entering_body_is_fatal(v: GameView, draws: Seq<Point>, i: int)
    requires
        valid_state(v),
        !v.over,
        0 <= i < v.snake.segments.len() - 1,
        next_head(v) == Some(v.snake.segments[i]),
    ensures
        collides(v),
        result_of(ticked(v, draws)) == TickResult::GameOver,
        ticked(v, draws) == (GameView { snake: steered(v.snake), over: true, ..v }),
{
    assert(v.snake.segments.drop_last()[i] == v.snake.segments[i]);
}

/// The tail's cell is left in the tick that the head moves onto it: such a
/// move is no collision, and the snake lies on the same cells after it.
pub proof fn lemma_vacated_tail_is_open(v: GameView, draws: Seq<Point>)
    requires
        valid_state(v),
        !v.over,
        next_head(v) == Some(v.snake.segments.last()),
    ensures
        !collides(v),
        !eats(v),
        result_of(ticked(v, draws)) == TickResult::Continue,
        ticked(v, draws).snake.segments == seq![v.snake.segments.last()]
            + v.snake.segments.drop_last(),
{
    let s = v.snake.segments;
    let n = s.len() as int;
    assert(s[n - 1] == s.last());
    assert(s.contains(s.last()));
    if s.drop_last().contains(s.last()) {
        let j = choose|j: int| 0 <= j < s.drop_last().len() && s.drop_last()[j] == s.last();
        assert(s[j] == s[n - 1]);
    }
}

/// A game that is over stays as it is, tick after tick; and the tick after
/// the one that ended the game changes nothing.
pub proof fn lemma_game_over_is_final(v: GameView, draws: Seq<Point>, later: Seq<Point>)
    ensures
        v.over ==> ticked(v, draws) == v,
        ticked(v, draws).over ==> ticked(ticked(v, draws), later) == ticked(v, draws),
        v.over ==> result_of(ticked(v, draws)) == TickResult::GameOver,
{
}

/// A tick whose draws come from the game's own generator is the tick on
/// the draws that the generator gives; only the seed that the generator
/// holds is another after it.
pub proof fn lemma_seeded_tick_is_a_tick(v: GameView)
    ensures
        ticked_by_seed(v) == (GameView {
            seed: ticked_by_seed(v).seed,
            ..ticked(v, draws_of(v))
        }),
        !respawn_due(v) ==> ticked_by_seed(v) == ticked(v, draws_of(v)),
{
    let moved = advanced(v);
    if respawn_due(v) {
        lemma_food_drawn_is_placed(
            v.seed,
            moved.width,
            moved.height,
            moved.snake.segments,
            FOOD_DRAWS as nat,
        );
    }
}

/// The draws decide where the food goes and nothing else: two ticks from
/// one state end alike but for the food's cell.
pub proof fn lemma_draws_move_only_the_food(v: GameView, a: Seq<Point>, b: Seq<Point>)
    requires
        valid_state(v),
    ensures
        ticked(v, a) == (GameView { food: ticked(v, a).food, ..ticked(v, b) }),
        result_of(ticked(v, a)) == result_of(ticked(v, b)),
{
    let moved = advanced(v);
    if respawn_due(v) {
        lemma_placed_food_is_free(moved.width, moved.height, moved.snake.segments, a);
        lemma_placed_food_is_free(moved.width, moved.height, moved.snake.segments, b);
    }
}

} // verus!
