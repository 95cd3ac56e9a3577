//! The source of random draws for the food.

use crate::food::{candidate, candidate_cell, first_free, first_free_cell, grid_full};
use crate::food::{is_free, occupied, placed_food};
use crate::geometry::Point;
use fastrand::Rng;
use std::collections::VecDeque;
use vstd::prelude::*;

verus! {

/// `fastrand::Rng`, a pseudo-random number generator. The proofs know of it
/// only the seed that it holds.
#[verifier::external_type_specification]
#[verifier::external_body]
pub struct ExRng(Rng);

/// Calls `fastrand::Rng::with_seed`, which makes a generator that holds
/// `seed` and nothing else.
#[verifier::external_body]
fn seeded_generator(seed: u64) -> (rng: Rng)
    ensures
        seed_of(rng) == seed,
{
    Rng::with_seed(seed)
}

/// Calls `fastrand::Rng::new`: a generator seeded by chance. Nothing is
/// claimed of the seed that it holds.
#[verifier::external_body]
fn fresh_generator() -> Rng {
    Rng::new()
}

/// Calls `fastrand::Rng::i32` with the unbounded range, on which it takes any
/// `i32` and does not panic. The number drawn and the seed held after the
/// draw are computed from the seed held before it, and from nothing else.
#[verifier::external_body]
fn draw_i32(rng: &mut Rng) -> (v: i32)
    ensures (v, seed_of(*final(rng))) == drawn(seed_of(*old(rng))),
{ rng.i32(..) }

/// A generator that holds the given seed, or one seeded by chance where none is given.
pub(crate) fn generator(seed: Option<u64>) -> (rng: Rng)
    ensures
        seed.is_some() ==> seed_of(rng) == seed.unwrap(),
{
    match seed { Some(s) => seeded_generator(s), None => fresh_generator() }
}

/// Draws a pair of numbers, the first for the columns and the second for the rows.
pub(crate) fn draw_point(rng: &mut Rng) -> (p: Point)
    ensures
        (p, seed_of(*final(rng))) == point_drawn(seed_of(*old(rng))),
{
    let x = draw_i32(rng);
    let y = draw_i32(rng);
    Point { x, y }
}

/// The seed that a generator holds, which `fastrand::Rng::get_seed` returns.
pub uninterp spec fn seed_of(rng: Rng) -> u64;

/// The number that `fastrand::Rng::i32` draws from the unbounded range on a
/// generator that holds `seed`, and the seed that the generator holds after
/// the draw.
pub uninterp spec fn drawn(seed: u64) -> (i32, u64);

/// The number of random draws made for one food cell before the grid is
/// scanned for a free one.
pub const FOOD_DRAWS: usize = 64;

/// The pair of numbers drawn from a generator that holds `seed`, and the
/// seed that the generator holds after the two draws.
pub open spec fn point_drawn(seed: u64) -> (Point, u64) {
    let first = drawn(seed);
    let second = drawn(first.1);
    (Point { x: first.0, y: second.0 }, second.1)
}

/// The cell picked for the food from a generator that holds `seed`, and the
/// seed that the generator holds after: the cell of the first of `budget`
/// draws that is free; where none is, the first free cell of the grid; and
/// `None` where the grid is full. No draw is made beyond the first free one.
pub open spec fn food_drawn(
    seed: u64,
    width: int,
    height: int,
    segments: Seq<Point>,
    budget: nat,
) -> (Option<Point>, u64)
    decreases budget,
{
    if budget == 0 {
        (first_free(width, height, segments), seed)
    } else {
        let (draw, next) = point_drawn(seed);
        if !segments.contains(candidate(width, height, draw)) {
            (Some(candidate(width, height, draw)), next)
        } else {
            food_drawn(next, width, height, segments, (budget - 1) as nat)
        }
    }
}

/// The draws that `food_drawn` makes, one after the other, as far as it
/// makes them.
pub open spec fn draws_made(
    seed: u64,
    width: int,
    height: int,
    segments: Seq<Point>,
    budget: nat,
) -> Seq<Point>
    decreases budget,
{
    if budget == 0 {
        Seq::empty()
    } else {
        let (draw, next) = point_drawn(seed);
        if !segments.contains(candidate(width, height, draw)) {
            seq![draw]
        } else {
            seq![draw] + draws_made(next, width, height, segments, (budget - 1) as nat)
        }
    }
}

/// The cell that `food_drawn` picks is the one that `placed_food` picks from
/// the draws made.
pub proof fn lemma_food_drawn_is_placed(
    seed: u64,
    width: int,
    height: int,
    segments: Seq<Point>,
    budget: nat,
)
    ensures
        food_drawn(seed, width, height, segments, budget).0 == placed_food(
            width,
            height,
            segments,
            draws_made(seed, width, height, segments, budget),
        ),
    decreases budget,
{
    if budget > 0 {
        let (draw, next) = point_drawn(seed);
        let made = draws_made(seed, width, height, segments, budget);
        assert(made.first() == draw);
        if segments.contains(candidate(width, height, draw)) {
            let rest = draws_made(next, width, height, segments, (budget - 1) as nat);
            assert(made.drop_first() == rest);
            lemma_food_drawn_is_placed(next, width, height, segments, (budget - 1) as nat);
        }
    }
}

/// Picks a cell for the food at random: draws cells until one is free, at
/// most `FOOD_DRAWS` times, and then takes the first free cell of the grid.
/// Returns `None` exactly where the grid is full.
pub fn draw_food(rng: &mut Rng, width: i32, height: i32, segments: &VecDeque<Point>) -> (r: Option<
    Point,
>)
    requires
        width >= 1,
        height >= 1,
    ensures
        r.is_none() <==> grid_full(width as int, height as int, segments@),
        r.is_some() ==> is_free(width as int, height as int, segments@, r.unwrap()),
        (r, seed_of(*final(rng))) == food_drawn(
            seed_of(*old(rng)),
            width as int,
            height as int,
            segments@,
            FOOD_DRAWS as nat,
        ),
{
    let ghost start = seed_of(*rng);
    let mut i: usize = 0;
    while i < FOOD_DRAWS
        invariant
            0 <= i <= FOOD_DRAWS,
            width >= 1,
            height >= 1,
            start == seed_of(*old(rng)),
            food_drawn(start, width as int, height as int, segments@, FOOD_DRAWS as nat)
                == food_drawn(
                seed_of(*rng),
                width as int,
                height as int,
                segments@,
                (FOOD_DRAWS - i) as nat,
            ),
        decreases FOOD_DRAWS - i,
    {
        let ghost before = seed_of(*rng);
        let draw = draw_point(rng);
        let c = candidate_cell(width, height, draw);
        assert(point_drawn(before) == (draw, seed_of(*rng)));
        assert(food_drawn(
            before,
            width as int,
            height as int,
            segments@,
            (FOOD_DRAWS - i) as nat,
        ) == if !segments@.contains(c) {
            (Some(c), seed_of(*rng))
        } else {
            food_drawn(
                seed_of(*rng),
                width as int,
                height as int,
                segments@,
                (FOOD_DRAWS - i - 1) as nat,
            )
        });
        if !occupied(segments, c) {
            assert(!grid_full(width as int, height as int, segments@));
            return Some(c);
        }
        i += 1;
    }
    first_free_cell(width, height, segments)
}

} // verus!
