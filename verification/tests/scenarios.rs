use snake_engine::engine::{Config, ConfigError, GameState, TickResult};
use snake_engine::geometry::{BoundaryPolicy, Direction, Point};

fn cells(list: &[(i32, i32)]) -> Vec<Point> {
    list.iter().map(|&(x, y)| Point::new(x, y)).collect()
}

fn config(
    width: i32,
    height: i32,
    policy: BoundaryPolicy,
    body: &[(i32, i32)],
    direction: Direction,
) -> Config {
    Config {
        grid_width: width,
        grid_height: height,
        ticks_per_second: 8,
        boundary_policy: policy,
        initial_snake_body: cells(body),
        initial_direction: direction,
        random_seed: Some(7),
    }
}

fn no_cell_twice(body: &[Point]) -> bool {
    (0..body.len()).all(|i| (i + 1..body.len()).all(|j| body[i] != body[j]))
}

#[test]
fn plain_move_keeps_length_and_score() {
    let c = config(5, 5, BoundaryPolicy::Wraparound, &[(2, 2), (2, 3), (2, 4)], Direction::Up);
    let mut game = GameState::with_food(&c, Point::new(0, 0)).unwrap();
    assert_eq!(game.food(), Point::new(0, 0));
    let r = game.tick();
    assert_eq!(r, TickResult::Continue);
    assert_eq!(game.head(), Point::new(2, 1));
    assert_eq!(game.body(), cells(&[(2, 1), (2, 2), (2, 3)]));
    assert_eq!(game.score(), 0);
    assert_eq!(game.food(), Point::new(0, 0));
    assert_eq!(game.direction(), Direction::Up);
    assert!(!game.is_over());
}

#[test]
fn eating_grows_the_snake_and_moves_the_food() {
    let c = config(5, 5, BoundaryPolicy::Wraparound, &[(2, 2), (2, 3), (2, 4)], Direction::Up);
    let mut game = GameState::with_food(&c, Point::new(2, 1)).unwrap();
    let r = game.tick();
    assert_eq!(r, TickResult::Continue);
    let body = game.body();
    assert_eq!(body, cells(&[(2, 1), (2, 2), (2, 3), (2, 4)]));
    assert_eq!(body.len(), 4);
    assert_eq!(game.score(), 1);
    let food = game.food();
    assert!(!body.contains(&food));
    assert!(0 <= food.x && food.x < 5 && 0 <= food.y && food.y < 5);
    assert!(!game.is_over());
}

#[test]
fn eating_with_given_draws_puts_the_food_on_the_first_free_draw() {
    let c = config(5, 5, BoundaryPolicy::Wraparound, &[(2, 2), (2, 3), (2, 4)], Direction::Up);
    let mut game = GameState::with_food(&c, Point::new(2, 1)).unwrap();
    let draws = cells(&[(2, 2), (7, -2), (-1, -1), (4, 4)]);
    let r = game.tick_with_draws(&draws);
    assert_eq!(r, TickResult::Continue);
    assert_eq!(game.body(), cells(&[(2, 1), (2, 2), (2, 3), (2, 4)]));
    assert_eq!(game.score(), 1);
    assert_eq!(game.food(), Point::new(4, 4));
}

#[test]
fn eating_with_no_free_draw_puts_the_food_on_the_first_free_cell() {
    let c = config(5, 5, BoundaryPolicy::Wraparound, &[(1, 0), (2, 0), (3, 0)], Direction::Left);
    let mut game = GameState::with_food(&c, Point::new(0, 0)).unwrap();
    let draws = cells(&[(0, 0), (1, 0), (5, 5), (-4, 10)]);
    let r = game.tick_with_draws(&draws);
    assert_eq!(r, TickResult::Continue);
    assert_eq!(game.body(), cells(&[(0, 0), (1, 0), (2, 0), (3, 0)]));
    assert_eq!(game.food(), Point::new(4, 0));
    let mut other = GameState::with_food(&c, Point::new(0, 0)).unwrap();
    assert_eq!(other.tick_with_draws(&Vec::new()), TickResult::Continue);
    assert_eq!(other.food(), Point::new(4, 0));
}

#[test]
fn running_into_the_body_ends_the_game_for_good() {
    let c = config(
        5,
        5,
        BoundaryPolicy::Wraparound,
        &[(2, 2), (1, 2), (1, 3), (2, 3), (3, 3)],
        Direction::Right,
    );
    let mut game = GameState::with_food(&c, Point::new(0, 0)).unwrap();
    game.push(Direction::Down);
    assert_eq!(game.tick(), TickResult::GameOver);
    assert!(game.is_over());
    assert_eq!(game.body(), cells(&[(2, 2), (1, 2), (1, 3), (2, 3), (3, 3)]));
    assert_eq!(game.food(), Point::new(0, 0));
    assert_eq!(game.score(), 0);
    assert_eq!(game.direction(), Direction::Down);
    for _ in 0..3 {
        game.push(Direction::Left);
        assert_eq!(game.tick(), TickResult::GameOver);
        assert!(game.is_over());
        assert_eq!(game.body(), cells(&[(2, 2), (1, 2), (1, 3), (2, 3), (3, 3)]));
        assert_eq!(game.food(), Point::new(0, 0));
        assert_eq!(game.score(), 0);
        assert_eq!(game.direction(), Direction::Down);
    }
    assert_eq!(game.tick_with_draws(&cells(&[(4, 4)])), TickResult::GameOver);
    assert_eq!(game.food(), Point::new(0, 0));
}

#[test]
fn the_head_may_follow_the_tail_onto_the_cell_it_leaves() {
    let c = config(
        5,
        5,
        BoundaryPolicy::Wraparound,
        &[(2, 2), (1, 2), (1, 3), (2, 3)],
        Direction::Right,
    );
    let mut game = GameState::with_food(&c, Point::new(0, 0)).unwrap();
    game.push(Direction::Down);
    assert_eq!(game.tick(), TickResult::Continue);
    assert_eq!(game.body(), cells(&[(2, 3), (2, 2), (1, 2), (1, 3)]));
    assert!(!game.is_over());
}

#[test]
fn entering_a_longer_loop_is_fatal_at_every_cell_but_the_tail() {
    let ring = [(1, 1), (2, 1), (3, 1), (3, 2), (3, 3), (2, 3), (1, 3), (1, 2)];
    for start in 0..ring.len() {
        let mut body = vec![(0, 0); 0];
        for k in 0..ring.len() {
            body.push(ring[(start + k) % ring.len()]);
        }
        let head = body[0];
        let tail = body[body.len() - 1];
        let into = (tail.0 - head.0, tail.1 - head.1);
        let away = match into {
            (1, 0) => Direction::Right,
            (-1, 0) => Direction::Left,
            (0, 1) => Direction::Down,
            _ => Direction::Up,
        };
        let c = config(5, 5, BoundaryPolicy::Walled, &body, away);
        let mut game = GameState::with_food(&c, Point::new(0, 0)).unwrap();
        assert_eq!(game.tick(), TickResult::Continue);
        assert_eq!(game.head(), Point::new(tail.0, tail.1));
    }
    let body = [(2, 2), (1, 2), (1, 1), (2, 1), (3, 1), (3, 2), (3, 3), (2, 3), (1, 3)];
    let c = config(5, 5, BoundaryPolicy::Walled, &body, Direction::Right);
    let mut right = GameState::with_food(&c, Point::new(0, 0)).unwrap();
    assert_eq!(right.tick(), TickResult::GameOver);
    let mut up = GameState::with_food(&c, Point::new(0, 0)).unwrap();
    up.push(Direction::Up);
    assert_eq!(up.tick(), TickResult::GameOver);
    let mut down = GameState::with_food(&c, Point::new(0, 0)).unwrap();
    down.push(Direction::Down);
    assert_eq!(down.tick(), TickResult::GameOver);
    assert_eq!(down.body(), cells(&body));
}

#[test]
fn wraparound_leads_over_each_edge_to_the_opposite_one() {
    let wrap = BoundaryPolicy::Wraparound;
    let mut right =
        GameState::with_food(&config(5, 4, wrap, &[(4, 2), (3, 2)], Direction::Right), Point::new(1, 1))
            .unwrap();
    assert_eq!(right.tick(), TickResult::Continue);
    assert_eq!(right.head(), Point::new(0, 2));
    let mut left =
        GameState::with_food(&config(5, 4, wrap, &[(0, 2), (1, 2)], Direction::Left), Point::new(1, 1))
            .unwrap();
    assert_eq!(left.tick(), TickResult::Continue);
    assert_eq!(left.head(), Point::new(4, 2));
    let mut up =
        GameState::with_food(&config(5, 4, wrap, &[(2, 0), (2, 1)], Direction::Up), Point::new(1, 1))
            .unwrap();
    assert_eq!(up.tick(), TickResult::Continue);
    assert_eq!(up.head(), Point::new(2, 3));
    let mut down =
        GameState::with_food(&config(5, 4, wrap, &[(2, 3), (2, 2)], Direction::Down), Point::new(1, 1))
            .unwrap();
    assert_eq!(down.tick(), TickResult::Continue);
    assert_eq!(down.head(), Point::new(2, 0));
    assert_eq!(down.body(), cells(&[(2, 0), (2, 3)]));
}

#[test]
fn a_wall_ends_the_game_at_each_edge() {
    let walled = BoundaryPolicy::Walled;
    let cases = [
        ([(4, 2), (3, 2)], Direction::Right),
        ([(0, 2), (1, 2)], Direction::Left),
        ([(2, 0), (2, 1)], Direction::Up),
        ([(2, 3), (2, 2)], Direction::Down),
    ];
    for (body, direction) in cases {
        let mut game =
            GameState::with_food(&config(5, 4, walled, &body, direction), Point::new(1, 1)).unwrap();
        assert_eq!(game.tick(), TickResult::GameOver);
        assert!(game.is_over());
        assert_eq!(game.body(), cells(&body));
        assert_eq!(game.score(), 0);
        assert_eq!(game.food(), Point::new(1, 1));
    }
    let mut inside =
        GameState::with_food(&config(5, 4, walled, &[(3, 2), (2, 2)], Direction::Right), Point::new(1, 1))
            .unwrap();
    assert_eq!(inside.tick(), TickResult::Continue);
    assert_eq!(inside.head(), Point::new(4, 2));
    assert_eq!(inside.tick(), TickResult::GameOver);
    assert_eq!(inside.head(), Point::new(4, 2));
}

#[test]
fn steering_takes_the_first_turn_and_never_reverses() {
    let c = config(5, 5, BoundaryPolicy::Wraparound, &[(2, 2), (2, 3), (2, 4)], Direction::Up);
    let mut game = GameState::with_food(&c, Point::new(0, 0)).unwrap();
    game.push(Direction::Down);
    game.push(Direction::Up);
    game.push(Direction::Left);
    game.push(Direction::Right);
    assert_eq!(game.snake().pending_len(), 4);
    assert_eq!(game.tick(), TickResult::Continue);
    assert_eq!(game.direction(), Direction::Left);
    assert_eq!(game.head(), Point::new(1, 2));
    assert_eq!(game.snake().pending_len(), 1);
    assert_eq!(game.tick(), TickResult::Continue);
    assert_eq!(game.direction(), Direction::Left);
    assert_eq!(game.head(), Point::new(0, 2));
    assert_eq!(game.snake().pending_len(), 0);
    game.push(Direction::Right);
    assert_eq!(game.tick(), TickResult::Continue);
    assert_eq!(game.direction(), Direction::Left);
    assert_eq!(game.head(), Point::new(4, 2));
}

#[test]
fn a_snake_that_fills_the_grid_ends_the_game() {
    let c = config(2, 1, BoundaryPolicy::Wraparound, &[(0, 0)], Direction::Right);
    let mut game = GameState::new(&c).unwrap();
    assert!(!game.is_over());
    assert_eq!(game.food(), Point::new(1, 0));
    assert_eq!(game.tick(), TickResult::GameOver);
    assert!(game.is_over());
    assert_eq!(game.body(), cells(&[(1, 0), (0, 0)]));
    assert_eq!(game.score(), 1);
    let single = config(1, 1, BoundaryPolicy::Walled, &[(0, 0)], Direction::Up);
    let mut full = GameState::new(&single).unwrap();
    assert!(full.is_over());
    assert_eq!(full.tick(), TickResult::GameOver);
    assert_eq!(full.body(), cells(&[(0, 0)]));
    assert_eq!(full.score(), 0);
    let mut given = GameState::with_food(&single, Point::new(3, 3)).unwrap();
    assert!(given.is_over());
    assert_eq!(given.tick(), TickResult::GameOver);
}

#[test]
fn a_single_segment_on_a_grid_one_cell_wide_stays_in_place() {
    let c = config(1, 3, BoundaryPolicy::Wraparound, &[(0, 1)], Direction::Right);
    let mut game = GameState::with_food(&c, Point::new(0, 0)).unwrap();
    assert_eq!(game.tick(), TickResult::Continue);
    assert_eq!(game.body(), cells(&[(0, 1)]));
    let two = config(1, 3, BoundaryPolicy::Wraparound, &[(0, 1), (0, 2)], Direction::Right);
    let mut blocked = GameState::with_food(&two, Point::new(0, 0)).unwrap();
    assert_eq!(blocked.tick(), TickResult::GameOver);
}

#[test]
fn the_given_food_is_kept_where_it_is_free_and_moved_where_it_is_not() {
    let c = config(5, 5, BoundaryPolicy::Wraparound, &[(2, 2), (2, 3), (2, 4)], Direction::Up);
    assert_eq!(GameState::with_food(&c, Point::new(3, 1)).unwrap().food(), Point::new(3, 1));
    assert_eq!(GameState::with_food(&c, Point::new(6, -1)).unwrap().food(), Point::new(1, 4));
    assert_eq!(GameState::with_food(&c, Point::new(2, 3)).unwrap().food(), Point::new(0, 0));
    assert_eq!(GameState::with_food(&c, Point::new(7, -1)).unwrap().food(), Point::new(0, 0));
    let top = config(3, 2, BoundaryPolicy::Walled, &[(0, 0), (1, 0), (2, 0), (2, 1)], Direction::Left);
    assert_eq!(GameState::with_food(&top, Point::new(1, 0)).unwrap().food(), Point::new(0, 1));
}

#[test]
fn a_new_game_shows_what_it_was_made_from() {
    let c = config(7, 4, BoundaryPolicy::Walled, &[(3, 3), (3, 2)], Direction::Down);
    let game = GameState::new(&c).unwrap();
    assert_eq!(game.width(), 7);
    assert_eq!(game.height(), 4);
    assert_eq!(game.policy(), BoundaryPolicy::Walled);
    assert_eq!(game.ticks_per_second(), 8);
    assert_eq!(game.body(), cells(&[(3, 3), (3, 2)]));
    assert_eq!(game.head(), Point::new(3, 3));
    assert_eq!(game.snake().len(), 2);
    assert_eq!(game.direction(), Direction::Down);
    assert_eq!(game.score(), 0);
    assert!(!game.is_over());
    let food = game.food();
    assert!(0 <= food.x && food.x < 7 && 0 <= food.y && food.y < 4);
    assert!(food != Point::new(3, 3) && food != Point::new(3, 2));
}

#[test]
fn each_fault_of_a_configuration_is_named() {
    let good = config(5, 5, BoundaryPolicy::Wraparound, &[(2, 2), (2, 3)], Direction::Up);
    assert!(GameState::new(&good).is_ok());
    assert!(GameState::with_food(&good, Point::new(0, 0)).is_ok());
    let mut c = config(0, 5, BoundaryPolicy::Wraparound, &[(2, 2), (2, 3)], Direction::Up);
    assert_eq!(GameState::new(&c).err(), Some(ConfigError::NonPositiveGrid));
    c.grid_width = 5;
    c.grid_height = -3;
    assert_eq!(GameState::new(&c).err(), Some(ConfigError::NonPositiveGrid));
    assert_eq!(GameState::with_food(&c, Point::new(0, 0)).err(), Some(ConfigError::NonPositiveGrid));
    c.grid_height = 5;
    c.initial_snake_body = Vec::new();
    assert_eq!(GameState::new(&c).err(), Some(ConfigError::EmptySnake));
    c.initial_snake_body = cells(&[(2, 2), (2, 3), (2, 2)]);
    assert_eq!(GameState::new(&c).err(), Some(ConfigError::OverlappingSnake));
    assert_eq!(GameState::with_food(&c, Point::new(0, 0)).err(), Some(ConfigError::OverlappingSnake));
    c.initial_snake_body = cells(&[(2, 2), (2, 3)]);
    c.ticks_per_second = 0;
    assert_eq!(GameState::new(&c).err(), Some(ConfigError::NonPositiveTickRate));
    c.ticks_per_second = -8;
    assert_eq!(GameState::new(&c).err(), Some(ConfigError::NonPositiveTickRate));
    c.initial_snake_body = Vec::new();
    assert_eq!(GameState::new(&c).err(), Some(ConfigError::EmptySnake));
    c.grid_width = 0;
    assert_eq!(GameState::new(&c).err(), Some(ConfigError::NonPositiveGrid));
}

#[test]
fn a_body_outside_the_grid_is_taken_as_it_is() {
    let c = config(5, 5, BoundaryPolicy::Wraparound, &[(-1, 7), (-2, 7)], Direction::Right);
    let mut game = GameState::with_food(&c, Point::new(3, 3)).unwrap();
    assert_eq!(game.tick(), TickResult::Continue);
    assert_eq!(game.body(), cells(&[(0, 2), (-1, 7)]));
    let far = config(5, 5, BoundaryPolicy::Walled, &[(i32::MAX, i32::MIN)], Direction::Right);
    let mut lost = GameState::with_food(&far, Point::new(3, 3)).unwrap();
    assert_eq!(lost.tick(), TickResult::GameOver);
    let edge = config(5, 5, BoundaryPolicy::Wraparound, &[(i32::MAX, i32::MIN)], Direction::Up);
    let mut back = GameState::with_food(&edge, Point::new(3, 3)).unwrap();
    assert_eq!(back.tick(), TickResult::Continue);
    assert_eq!(back.head(), Point::new(2, 1));
}

#[test]
fn a_long_game_keeps_its_invariants() {
    for seed in 0..20u64 {
        let mut c = config(6, 5, BoundaryPolicy::Wraparound, &[(2, 2), (2, 3), (2, 4)], Direction::Up);
        c.random_seed = Some(seed);
        let mut game = GameState::new(&c).unwrap();
        let turns = [Direction::Left, Direction::Up, Direction::Right, Direction::Down];
        let mut last_score = 0;
        for t in 0..400usize {
            if game.is_over() {
                break;
            }
            let before_len = game.body().len();
            let before_score = game.score();
            let before_direction = game.direction();
            if t % 3 == 0 {
                game.push(turns[(t / 3 + seed as usize) % 4]);
            }
            let r = game.tick();
            let body = game.body();
            assert!(no_cell_twice(&body));
            assert_ne!(game.direction(), before_direction.opposite());
            assert!(game.score() >= last_score);
            last_score = game.score();
            assert_eq!(body.len() as u64, 3 + game.score());
            let grew = game.score() - before_score;
            assert!(grew <= 1);
            assert_eq!(body.len(), before_len + grew as usize);
            assert_eq!(r == TickResult::GameOver, game.is_over());
            if r == TickResult::Continue {
                let food = game.food();
                assert!(!body.contains(&food));
                assert!(food != game.head());
                assert!(0 <= food.x && food.x < 6 && 0 <= food.y && food.y < 5);
            }
        }
    }
}

#[test]
fn one_seed_gives_one_game() {
    let c = config(8, 8, BoundaryPolicy::Wraparound, &[(4, 4), (4, 5)], Direction::Up);
    let mut a = GameState::new(&c).unwrap();
    let mut b = GameState::new(&c).unwrap();
    assert_eq!(a.food(), b.food());
    for _ in 0..8 {
        let target = a.food();
        for _ in 0..40 {
            if a.is_over() || a.food() != target {
                break;
            }
            let head = a.head();
            let want = if head.x != target.x { Direction::Right } else { Direction::Down };
            a.push(want);
            b.push(want);
            assert_eq!(a.tick(), b.tick());
            assert_eq!(a.body(), b.body());
            assert_eq!(a.food(), b.food());
            assert_eq!(a.score(), b.score());
        }
    }
    assert!(a.score() >= 1);
}

#[test]
fn a_seeded_game_draws_its_food_from_that_seed() {
    for seed in 0..30u64 {
        let mut c = config(6, 5, BoundaryPolicy::Wraparound, &[(2, 2), (2, 3), (2, 4)], Direction::Up);
        c.random_seed = Some(seed);
        let game = GameState::new(&c).unwrap();
        let mut plain = fastrand::Rng::with_seed(seed);
        let body = cells(&[(2, 2), (2, 3), (2, 4)]);
        let mut expected = None;
        while expected.is_none() {
            let x = plain.i32(..);
            let y = plain.i32(..);
            let cell = Point::new(x.rem_euclid(6), y.rem_euclid(5));
            if !body.contains(&cell) {
                expected = Some(cell);
            }
        }
        assert_eq!(Some(game.food()), expected);
        let mut eater = GameState::with_food(&c, Point::new(2, 1)).unwrap();
        assert_eq!(eater.tick(), TickResult::Continue);
        let grown = cells(&[(2, 1), (2, 2), (2, 3), (2, 4)]);
        let mut again = fastrand::Rng::with_seed(seed);
        let mut draws = Vec::new();
        loop {
            let x = again.i32(..);
            let y = again.i32(..);
            draws.push(Point::new(x, y));
            if !grown.contains(&Point::new(x.rem_euclid(6), y.rem_euclid(5))) {
                break;
            }
        }
        let mut given = GameState::with_food(&c, Point::new(2, 1)).unwrap();
        assert_eq!(given.tick_with_draws(&draws), TickResult::Continue);
        assert_eq!(eater.food(), given.food());
        assert_eq!(eater.body(), given.body());
        assert_eq!(eater.score(), given.score());
    }
}

#[test]
fn seeds_differ_in_the_food_they_give() {
    let mut seen = Vec::new();
    for seed in 0..30u64 {
        let mut c = config(16, 16, BoundaryPolicy::Wraparound, &[(8, 8)], Direction::Up);
        c.random_seed = Some(seed);
        let food = GameState::new(&c).unwrap().food();
        assert_eq!(GameState::new(&c).unwrap().food(), food);
        if !seen.contains(&food) {
            seen.push(food);
        }
    }
    assert!(seen.len() > 10);
}
