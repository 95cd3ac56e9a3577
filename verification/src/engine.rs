//! The game: a grid, the snake on it, the food, the score, and the tick that
//! moves everything one step on.

use crate::food::{grid_full, is_free, place_food, placed_food};
use crate::geometry::{in_grid, neighbour, step_from, BoundaryPolicy, Direction, Point};
use crate::input::resolved;
use crate::random::{
    draw_food, draws_made, food_drawn, generator, lemma_food_drawn_is_placed, seed_of,
    FOOD_DRAWS,
};
use crate::snake::{
    blocked, lemma_shifted_valid, shifted, steered, valid_body, BodyError, Snake, SnakeView,
};
use fastrand::Rng;
use vstd::prelude::*;

verus! {

/// What a game is made from.
pub struct Config {
    /// The number of columns of the grid, at least 1.
    pub grid_width: i32,
    /// The number of rows of the grid, at least 1.
    pub grid_height: i32,
    /// How many ticks the host runs in a second, at least 1.
    pub ticks_per_second: i32,
    /// What happens at the edge of the grid.
    pub boundary_policy: BoundaryPolicy,
    /// The cells the snake starts on, the head first.
    pub initial_snake_body: Vec<Point>,
    /// The direction the snake starts in.
    pub initial_direction: Direction,
    /// The seed of the food's random draws, or `None` for a seed by chance.
    pub random_seed: Option<u64>,
}

/// Why a configuration is turned down.
#[derive(Clone, Copy, Debug, PartialEq, Eq, Structural)]
pub enum ConfigError {
    /// The grid has fewer than one column or fewer than one row.
    NonPositiveGrid,
    /// The snake's body holds no cell.
    EmptySnake,
    /// The snake's body holds a cell twice.
    OverlappingSnake,
    /// Fewer than one tick in a second.
    NonPositiveTickRate,
}

/// How a tick ended.
#[derive(Clone, Copy, Debug, PartialEq, Eq, Structural)]
pub enum TickResult {
    /// The game goes on.
    Continue,
    /// The game is over, by this tick or by an earlier one.
    GameOver,
}

/// What a game is, to the contracts.
pub struct GameView {
    /// The number of columns of the grid.
    pub width: int,
    /// The number of rows of the grid.
    pub height: int,
    /// What happens at the edge of the grid.
    pub policy: BoundaryPolicy,
    /// How many ticks the host runs in a second.
    pub ticks_per_second: int,
    /// The snake.
    pub snake: SnakeView,
    /// The cell of the food.
    pub food: Point,
    /// The number of times the snake has eaten.
    pub score: nat,
    /// Whether the game is over.
    pub over: bool,
    /// The seed that the generator of the food's draws holds.
    pub seed: u64,
}

/// The error that `config` is turned down with, or `None` where a game can
/// be made from it. Where several things are wrong, the grid is named
/// before the snake's body, and the body before the tick rate.
pub open spec fn config_error(config: Config) -> Option<ConfigError> {
    if config.grid_width < 1 || config.grid_height < 1 {
        Some(ConfigError::NonPositiveGrid)
    } else if config.initial_snake_body@.len() == 0 {
        Some(ConfigError::EmptySnake)
    } else if !config.initial_snake_body@.no_duplicates() {
        Some(ConfigError::OverlappingSnake)
    } else if config.ticks_per_second < 1 {
        Some(ConfigError::NonPositiveTickRate)
    } else {
        None
    }
}

/// The game that starts from `config` with the food on `food` and a
/// generator that holds `seed`. Where there is no cell for the food, because
/// the snake fills the grid, the game is over from the start.
pub open spec fn initial_view(config: Config, food: Option<Point>, seed: u64) -> GameView {
    GameView {
        width: config.grid_width as int,
        height: config.grid_height as int,
        policy: config.boundary_policy,
        ticks_per_second: config.ticks_per_second as int,
        snake: SnakeView {
            segments: config.initial_snake_body@,
            direction: config.initial_direction,
            pending: Seq::empty(),
        },
        food: match food {
            Some(p) => p,
            None => Point { x: 0, y: 0 },
        },
        score: 0,
        over: food.is_none(),
        seed,
    }
}

/// The invariant of a game: the grid has a cell, the snake a head and no
/// cell twice, the score counts segments that the snake has gained, the food
/// lies in the grid, and, while the game runs, on no segment of the snake.
pub open spec fn valid_state(v: GameView) -> bool {
    &&& 1 <= v.width <= i32::MAX
    &&& 1 <= v.height <= i32::MAX
    &&& 1 <= v.ticks_per_second
    &&& valid_body(v.snake.segments)
    &&& v.score < v.snake.segments.len()
    &&& in_grid(v.width, v.height, v.food)
    &&& !v.over ==> !v.snake.segments.contains(v.food)
}

/// The direction of the next tick.
pub open spec fn heading(v: GameView) -> Direction {
    resolved(v.snake.pending, v.snake.direction)
}

/// The cell that the head moves onto in the next tick, or `None` where a
/// wall is in the way.
pub open spec fn next_head(v: GameView) -> Option<Point> {
    neighbour(v.width, v.height, v.policy, v.snake.segments.first(), heading(v))
}

/// Whether the next tick's move takes the head onto the food.
pub open spec fn eats(v: GameView) -> bool {
    next_head(v) == Some(v.food)
}

/// Whether the next tick's move is a collision: into a wall, or onto a cell
/// of the snake that is still taken when the move is done.
pub open spec fn collides(v: GameView) -> bool {
    match next_head(v) {
        None => true,
        Some(p) => blocked(v.snake.segments, p, p == v.food),
    }
}

/// Whether the next tick ends with a new cell for the food.
pub open spec fn respawn_due(v: GameView) -> bool {
    !v.over && !collides(v) && eats(v)
}

/// The game after the next tick's move, before any new cell is picked for
/// the food. A game that is over stays as it is. A collision ends the game
/// and changes nothing but the direction picked. Else the snake moves, and
/// grows and scores where it eats.
pub open spec fn advanced(v: GameView) -> GameView {
    if v.over {
        v
    } else if collides(v) {
        GameView { snake: steered(v.snake), over: true, ..v }
    } else {
        let grow = eats(v);
        GameView {
            snake: SnakeView {
                segments: shifted(v.snake.segments, next_head(v).unwrap(), grow),
                ..steered(v.snake)
            },
            score: if grow {
                v.score + 1
            } else {
                v.score
            },
            ..v
        }
    }
}

/// The game with the food on the cell picked for it, or over where there
/// was no cell to pick.
pub open spec fn settled(v: GameView, food: Option<Point>) -> GameView {
    match food {
        Some(p) => GameView { food: p, ..v },
        None => GameView { over: true, ..v },
    }
}

/// The game after one tick in which `draws` are the random draws made for
/// the food.
pub open spec fn ticked(v: GameView, draws: Seq<Point>) -> GameView {
    let moved = advanced(v);
    if respawn_due(v) {
        settled(moved, placed_food(moved.width, moved.height, moved.snake.segments, draws))
    } else {
        moved
    }
}

/// The draws that the generator of `v` gives for the food in the next tick:
/// none where the food stays, else one draw after the other up to the first
/// whose cell is free, `FOOD_DRAWS` at most.
pub open spec fn draws_of(v: GameView) -> Seq<Point> {
    let moved = advanced(v);
    if respawn_due(v) {
        draws_made(v.seed, moved.width, moved.height, moved.snake.segments, FOOD_DRAWS as nat)
    } else {
        Seq::empty()
    }
}

/// The game after one tick in which the draws for the food come from the
/// game's own generator, which holds another seed after them.
pub open spec fn ticked_by_seed(v: GameView) -> GameView {
    let moved = advanced(v);
    if respawn_due(v) {
        let (food, seed) = food_drawn(
            v.seed,
            moved.width,
            moved.height,
            moved.snake.segments,
            FOOD_DRAWS as nat,
        );
        GameView { seed, ..settled(moved, food) }
    } else {
        moved
    }
}

/// The game that starts from `config` where it names a seed: the food's
/// cell is drawn from a generator that holds that seed.
pub open spec fn seeded_view(config: Config) -> GameView {
    let (food, seed) = food_drawn(
        config.random_seed.unwrap(),
        config.grid_width as int,
        config.grid_height as int,
        config.initial_snake_body@,
        FOOD_DRAWS as nat,
    );
    initial_view(config, food, seed)
}

/// What a tick that leaves the game as `v` reports.
pub open spec fn result_of(v: GameView) -> TickResult {
    if v.over {
        TickResult::GameOver
    } else {
        TickResult::Continue
    }
}

/// The whole state of one game.
pub struct GameState {
    width: i32,
    height: i32,
    policy: BoundaryPolicy,
    ticks_per_second: i32,
    snake: Snake,
    food: Point,
    score: u64,
    over: bool,
    rng: Rng,
}

impl View for GameState {
    type V = GameView;

    closed spec fn view(&self) -> GameView {
        GameView {
            width: self.width as int,
            height: self.height as int,
            policy: self.policy,
            ticks_per_second: self.ticks_per_second as int,
            snake: self.snake@,
            food: self.food,
            score: self.score as nat,
            over: self.over,
            seed: seed_of(self.rng),
        }
    }
}

impl GameState {
    /// The invariant of a game, which every function here keeps.
    pub open spec fn wf(&self) -> bool {
        valid_state(self@)
    }

    /// Checks `config` and builds the game without its food.
    fn build(config: &Config) -> (r: Result<GameState, ConfigError>)
        ensures
            match r {
                Ok(state) => {
                    &&& config_error(*config).is_none()
                    &&& state@ == (GameView {
                        over: false,
                        ..initial_view(*config, None, state@.seed)
                    })
                    &&& config.random_seed.is_some() ==> state@.seed
                        == config.random_seed.unwrap()
                },
                Err(e) => config_error(*config) == Some(e),
            },
    {
        if config.grid_width < 1 || config.grid_height < 1 {
            return Err(ConfigError::NonPositiveGrid);
        }
        let snake = match Snake::new(&config.initial_snake_body, config.initial_direction) {
            Ok(snake) => snake,
            Err(BodyError::Empty) => {
                return Err(ConfigError::EmptySnake);
            },
            Err(BodyError::Overlapping) => {
                return Err(ConfigError::OverlappingSnake);
            },
        };
        if config.ticks_per_second < 1 {
            return Err(ConfigError::NonPositiveTickRate);
        }
        Ok(
            GameState {
                width: config.grid_width,
                height: config.grid_height,
                policy: config.boundary_policy,
                ticks_per_second: config.ticks_per_second,
                snake,
                food: Point { x: 0, y: 0 },
                score: 0,
                over: false,
                rng: generator(config.random_seed),
            },
        )
    }

    /// Puts the food on the cell picked for it, or ends the game where
    /// there was none to pick.
    fn settle(&mut self, food: Option<Point>)
        ensures
            final(self)@ == settled(old(self)@, food),
    {
        match food {
            Some(p) => {
                self.food = p;
            },
            None => {
                self.over = true;
            },
        }
    }

    /// A new game from `config`, with the food on a free cell picked at
    /// random. Where the snake fills the whole grid there is no such cell,
    /// and the game is over from the start.
    pub fn new(config: &Config) -> (r: Result<GameState, ConfigError>)
        ensures
            match r {
                Ok(state) => {
                    &&& config_error(*config).is_none()
                    &&& state.wf()
                    &&& if grid_full(
                        config.grid_width as int,
                        config.grid_height as int,
                        config.initial_snake_body@,
                    ) {
                        state@ == initial_view(*config, None, state@.seed)
                    } else {
                        &&& state@ == initial_view(*config, Some(state@.food), state@.seed)
                        &&& is_free(
                            config.grid_width as int,
                            config.grid_height as int,
                            config.initial_snake_body@,
                            state@.food,
                        )
                    }
                    &&& config.random_seed.is_some() ==> state@ == seeded_view(*config)
                },
                Err(e) => config_error(*config) == Some(e),
            },
    {
        let mut state = match GameState::build(config) {
            Ok(state) => state,
            Err(e) => {
                return Err(e);
            },
        };
        let food = draw_food(&mut state.rng, state.width, state.height, state.snake.cells());
        state.settle(food);
        Ok(state)
    }

    /// A new game from `config`, with the food on `food`, taken modulo the
    /// grid's extent. Where that cell is under the snake the food goes on
    /// the first free cell of the grid, and where there is none the game is
    /// over from the start.
    pub fn with_food(config: &Config, food: Point) -> (r: Result<GameState, ConfigError>)
        ensures
            match r {
                Ok(state) => {
                    &&& config_error(*config).is_none()
                    &&& state.wf()
                    &&& state@ == initial_view(
                        *config,
                        placed_food(
                            config.grid_width as int,
                            config.grid_height as int,
                            config.initial_snake_body@,
                            seq![food],
                        ),
                        state@.seed,
                    )
                    &&& config.random_seed.is_some() ==> state@.seed
                        == config.random_seed.unwrap()
                },
                Err(e) => config_error(*config) == Some(e),
            },
    {
        let mut state = match GameState::build(config) {
            Ok(state) => state,
            Err(e) => {
                return Err(e);
            },
        };
        let mut draws: Vec<Point> = Vec::new();
        draws.push(food);
        assert(draws@ == seq![food]);
        let cell = place_food(state.width, state.height, state.snake.cells(), &draws);
        state.settle(cell);
        Ok(state)
    }

    /// The number of columns of the grid.
    pub fn width(&self) -> (w: i32)
        ensures
            w as int == self@.width,
    {
        self.width
    }

    /// The number of rows of the grid.
    pub fn height(&self) -> (h: i32)
        ensures
            h as int == self@.height,
    {
        self.height
    }

    /// What happens at the edge of the grid.
    pub fn policy(&self) -> (p: BoundaryPolicy)
        ensures
            p == self@.policy,
    {
        self.policy
    }

    /// How many ticks the host runs in a second.
    pub fn ticks_per_second(&self) -> (n: i32)
        ensures
            n as int == self@.ticks_per_second,
    {
        self.ticks_per_second
    }

    /// The snake.
    pub fn snake(&self) -> (snake: &Snake)
        ensures
            snake@ == self@.snake,
    {
        &self.snake
    }

    /// The cell of the snake's head.
    pub fn head(&self) -> (p: Point)
        requires
            self.wf(),
        ensures
            p == self@.snake.segments.first(),
    {
        self.snake.head()
    }

    /// The cells the snake lies on, the head first.
    pub fn body(&self) -> (cells: Vec<Point>)
        ensures
            cells@ == self@.snake.segments,
    {
        self.snake.body()
    }

    /// The direction of the most recent tick.
    pub fn direction(&self) -> (d: Direction)
        ensures
            d == self@.snake.direction,
    {
        self.snake.direction()
    }

    /// The cell of the food.
    pub fn food(&self) -> (p: Point)
        ensures
            p == self@.food,
    {
        self.food
    }

    /// The number of times the snake has eaten.
    pub fn score(&self) -> (n: u64)
        ensures
            n as nat == self@.score,
    {
        self.score
    }

    /// Whether the game is over.
    pub fn is_over(&self) -> (b: bool)
        ensures
            b == self@.over,
    {
        self.over
    }

    /// Buffers a steering intent for the ticks to come. Nothing is
    /// filtered here.
    pub fn push(&mut self, direction: Direction)
        ensures
            final(self)@ == (GameView {
                snake: SnakeView {
                    pending: old(self)@.snake.pending.push(direction),
                    ..old(self)@.snake
                },
                ..old(self)@
            }),
            old(self).wf() ==> final(self).wf(),
    {
        self.snake.push_direction(direction);
    }

    /// The tick's move: picks the direction, moves the head, ends the game
    /// on a collision, and lets the snake grow and score where it eats.
    /// Returns whether the food needs a new cell.
    fn step(&mut self) -> (due: bool)
        requires
            old(self).wf(),
        ensures
            final(self)@ == advanced(old(self)@),
            due == respawn_due(old(self)@),
            !due ==> final(self).wf(),
            due ==> valid_state(settled(final(self)@, None)),
    {
        if self.over {
            return false;
        }
        let d = self.snake.steer();
        let head = self.snake.head();
        match step_from(self.width, self.height, self.policy, head, d) {
            None => {
                self.over = true;
                false
            },
            Some(p) => {
                let grow = p == self.food;
                if self.snake.advance(p, grow) {
                    if grow {
                        self.score = self.score + 1;
                    }
                    proof {
                        lemma_shifted_valid(old(self)@.snake.segments, p, grow);
                    }
                    grow
                } else {
                    self.over = true;
                    false
                }
            },
        }
    }

    /// One tick in which `draws` stand for the random draws made for the
    /// food. Nothing here is left to chance.
    pub fn tick_with_draws(&mut self, draws: &Vec<Point>) -> (r: TickResult)
        requires
            old(self).wf(),
        ensures
            final(self).wf(),
            final(self)@ == ticked(old(self)@, draws@),
            r == result_of(final(self)@),
    {
        let due = self.step();
        if due {
            let cell = place_food(self.width, self.height, self.snake.cells(), draws);
            self.settle(cell);
        }
        if self.over {
            TickResult::GameOver
        } else {
            TickResult::Continue
        }
    }

    /// One tick. A game that is over stays as it is. Else the snake picks
    /// its direction and moves; a collision ends the game and leaves
    /// everything else in place; where the snake eats, it grows, scores, and
    /// the food goes on a free cell picked at random, or the game ends where
    /// the snake fills the grid.
    pub fn tick(&mut self) -> (r: TickResult)
        requires
            old(self).wf(),
        ensures
            final(self).wf(),
            r == result_of(final(self)@),
            final(self)@ == ticked_by_seed(old(self)@),
            final(self)@ == (GameView {
                seed: final(self)@.seed,
                ..ticked(old(self)@, draws_of(old(self)@))
            }),
            !respawn_due(old(self)@) ==> final(self)@ == advanced(old(self)@),
            respawn_due(old(self)@) ==> ({
                let moved = advanced(old(self)@);
                if grid_full(moved.width, moved.height, moved.snake.segments) {
                    final(self)@ == (GameView { seed: final(self)@.seed, ..settled(moved, None) })
                } else {
                    &&& final(self)@ == (GameView {
                        seed: final(self)@.seed,
                        ..settled(moved, Some(final(self)@.food))
                    })
                    &&& is_free(moved.width, moved.height, moved.snake.segments, final(self)@.food)
                }
            }),
    {
        let due = self.step();
        if due {
            proof {
                lemma_food_drawn_is_placed(
                    self@.seed,
                    self@.width,
                    self@.height,
                    self@.snake.segments,
                    FOOD_DRAWS as nat,
                );
            }
            let cell = draw_food(&mut self.rng, self.width, self.height, self.snake.cells());
            self.settle(cell);
        }
        if self.over {
            TickResult::GameOver
        } else {
            TickResult::Continue
        }
    }
}

} // verus!
