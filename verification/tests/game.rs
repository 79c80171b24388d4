use snake::grid::{TILES_H, TILES_W};
use snake::{Game, Move, Position};

fn at(x: i32, y: i32) -> Position {
    Position { x, y }
}

fn game(snake: &[(i32, i32)], direction: Move, apple: (i32, i32)) -> Game {
    let cells: Vec<Position> = snake.iter().map(|c| at(c.0, c.1)).collect();
    Game::with_state(cells, direction, at(apple.0, apple.1)).expect("a well-formed state")
}

fn cells(snake: &[(i32, i32)]) -> Vec<Position> {
    snake.iter().map(|c| at(c.0, c.1)).collect()
}

/// Every cell of the board but `hole`, ending so that the head, the first
/// entry, is `head`.
fn board_without(hole: Position, head: Position) -> Vec<Position> {
    let mut snake = vec![head];
    for y in 0..TILES_H {
        for x in 0..TILES_W {
            if at(x, y) != hole && at(x, y) != head {
                snake.push(at(x, y));
            }
        }
    }
    snake
}

#[test]
fn init_is_the_fixed_starting_state() {
    let game = Game::init();
    assert_eq!(game.snake(), &cells(&[(10, 10), (11, 10), (12, 10)]));
    assert_eq!(game.direction(), Move::Left);
    assert_eq!(game.apple(), at(4, 11));
    assert!(!game.is_dead());
}

#[test]
fn score_is_zero_at_the_start() {
    assert_eq!(Game::init().score(), 0);
}

#[test]
fn score_is_the_length_beyond_three() {
    let four = game(&[(4, 4), (5, 4), (6, 4), (7, 4)], Move::Left, (0, 0));
    assert_eq!(four.score(), 1);
    let seven = game(
        &[(4, 4), (5, 4), (6, 4), (7, 4), (8, 4), (9, 4), (10, 4)],
        Move::Left,
        (0, 0),
    );
    assert_eq!(seven.score(), 4);
    assert_eq!(seven.score(), seven.snake().len() - 3);
}

#[test]
fn anti_reversal() {
    let mut game = game(&[(5, 5), (6, 5), (7, 5)], Move::Left, (0, 0));
    game.request_direction(Move::Right);
    assert_eq!(game.direction(), Move::Left);
    game.request_direction(Move::Up);
    assert_eq!(game.direction(), Move::Up);
}

#[test]
fn request_direction_takes_every_heading_but_the_way_back() {
    for heading in Move::iter() {
        let mut game = game(&[(5, 5), (6, 5), (7, 5)], Move::Left, (0, 0));
        game.request_direction(heading);
        let expected = if heading == Move::Right { Move::Left } else { heading };
        assert_eq!(game.direction(), expected);
        assert_eq!(game.snake(), &cells(&[(5, 5), (6, 5), (7, 5)]));
        assert_eq!(game.apple(), at(0, 0));
    }
}

#[test]
fn anti_reversal_sees_through_the_edge() {
    let mut game = game(&[(0, 5), (18, 5), (17, 5)], Move::Right, (9, 9));
    game.request_direction(Move::Left);
    assert_eq!(game.direction(), Move::Right);
    game.request_direction(Move::Down);
    assert_eq!(game.direction(), Move::Down);
}

#[test]
fn self_collision() {
    let mut rng = rand::thread_rng();
    let mut game = game(&[(0, 0), (1, 0), (2, 0)], Move::Right, (9, 9));
    game.tick(&mut rng);
    assert!(game.is_dead());
    assert_eq!(game.snake(), &cells(&[(1, 0), (0, 0), (1, 0)]));
    assert_eq!(game.apple(), at(9, 9));
}

#[test]
fn moving_into_the_tail_cell_is_fatal() {
    let mut rng = rand::thread_rng();
    let mut game = game(&[(5, 5), (5, 6), (6, 6), (6, 5)], Move::Right, (9, 9));
    game.tick(&mut rng);
    assert!(game.is_dead());
    assert_eq!(game.snake(), &cells(&[(6, 5), (5, 5), (5, 6), (6, 6)]));
}

#[test]
fn growth_on_consumption() {
    let mut rng = rand::thread_rng();
    for _ in 0..200 {
        let mut game = game(&[(4, 11), (5, 11), (6, 11)], Move::Up, (4, 10));
        game.tick(&mut rng);
        assert!(!game.is_dead());
        assert_eq!(game.snake(), &cells(&[(4, 10), (4, 11), (5, 11), (6, 11)]));
        assert_eq!(game.snake().len(), 4);
        assert!(game.apple().is_in_bounds());
        assert!(!game.snake().contains(&game.apple()));
        assert_eq!(game.direction(), Move::Up);
        assert_eq!(game.score(), 1);
    }
}

#[test]
fn tick_with_takes_the_offered_cell() {
    let mut game = game(&[(4, 11), (5, 11), (6, 11)], Move::Up, (4, 10));
    assert!(game.accepts(at(7, 7)));
    game.tick_with(at(7, 7));
    assert!(!game.is_dead());
    assert_eq!(game.snake(), &cells(&[(4, 10), (4, 11), (5, 11), (6, 11)]));
    assert_eq!(game.apple(), at(7, 7));
    assert_eq!(game.direction(), Move::Up);
    assert_eq!(game.score(), 1);
}

#[test]
fn tick_with_settles_for_the_first_free_cell() {
    for offered in [at(4, 10), at(4, 11), at(6, 11), at(19, 3), at(3, -1)] {
        let mut game = game(&[(4, 11), (5, 11), (6, 11)], Move::Up, (4, 10));
        assert!(!game.accepts(offered));
        game.tick_with(offered);
        assert_eq!(game.snake(), &cells(&[(4, 10), (4, 11), (5, 11), (6, 11)]));
        assert_eq!(game.apple(), at(0, 0));
    }
    let mut corner = game(&[(1, 0), (2, 0), (3, 0)], Move::Left, (0, 0));
    corner.tick_with(at(2, 0));
    assert_eq!(corner.snake(), &cells(&[(0, 0), (1, 0), (2, 0), (3, 0)]));
    assert_eq!(corner.apple(), at(4, 0));
}

#[test]
fn tick_with_ignores_the_offer_on_a_plain_move() {
    let mut game = Game::init();
    assert!(game.accepts(at(10, 10)));
    assert!(game.accepts(at(-5, 40)));
    game.tick_with(at(7, 7));
    assert_eq!(game.snake(), &cells(&[(9, 10), (10, 10), (11, 10)]));
    assert_eq!(game.apple(), at(4, 11));
    assert!(!game.is_dead());
}

#[test]
fn tick_with_leaves_a_dead_snake_alone() {
    let mut game = game(&[(0, 0), (1, 0), (2, 0)], Move::Right, (9, 9));
    game.tick_with(at(7, 7));
    assert!(game.is_dead());
    assert!(game.accepts(at(1, 0)));
    game.tick_with(at(7, 7));
    assert!(game.is_dead());
    assert_eq!(game.snake(), &cells(&[(1, 0), (0, 0), (1, 0)]));
    assert_eq!(game.apple(), at(9, 9));
}

#[test]
fn accepts_free_cells_only_when_the_tick_eats() {
    let game = game(&[(4, 11), (5, 11), (6, 11)], Move::Up, (4, 10));
    assert!(game.accepts(at(0, 0)));
    assert!(game.accepts(at(18, 18)));
    assert!(game.accepts(at(7, 11)));
    assert!(!game.accepts(at(4, 10)));
    assert!(!game.accepts(at(5, 11)));
    assert!(!game.accepts(at(19, 0)));
    assert!(!game.accepts(at(0, 19)));
    assert!(!game.accepts(at(-1, 0)));
}

#[test]
fn new_apples_vary() {
    let mut rng = rand::thread_rng();
    let mut seen = Vec::new();
    for _ in 0..300 {
        let mut game = game(&[(4, 11), (5, 11), (6, 11)], Move::Up, (4, 10));
        game.tick(&mut rng);
        if !seen.contains(&game.apple()) {
            seen.push(game.apple());
        }
    }
    assert!(seen.len() > 1);
}

#[test]
fn plain_move_preserves_length() {
    let mut rng = rand::thread_rng();
    let mut game = Game::init();
    game.tick(&mut rng);
    assert_eq!(game.snake(), &cells(&[(9, 10), (10, 10), (11, 10)]));
    assert_eq!(game.snake().len(), 3);
    assert_eq!(game.apple(), at(4, 11));
    assert_eq!(game.direction(), Move::Left);
    assert!(!game.is_dead());
    assert_eq!(game.score(), 0);
}

#[test]
fn tick_wraps_at_every_edge() {
    let mut rng = rand::thread_rng();
    let mut left = game(&[(0, 3), (1, 3), (2, 3)], Move::Left, (9, 9));
    left.tick(&mut rng);
    assert_eq!(left.snake(), &cells(&[(18, 3), (0, 3), (1, 3)]));
    let mut right = game(&[(18, 3), (17, 3), (16, 3)], Move::Right, (9, 9));
    right.tick(&mut rng);
    assert_eq!(right.snake(), &cells(&[(0, 3), (18, 3), (17, 3)]));
    let mut up = game(&[(3, 0), (3, 1), (3, 2)], Move::Up, (9, 9));
    up.tick(&mut rng);
    assert_eq!(up.snake(), &cells(&[(3, 18), (3, 0), (3, 1)]));
    let mut down = game(&[(3, 18), (3, 17), (3, 16)], Move::Down, (9, 9));
    down.tick(&mut rng);
    assert_eq!(down.snake(), &cells(&[(3, 0), (3, 18), (3, 17)]));
}

#[test]
fn dead_snake_is_frozen() {
    let mut rng = rand::thread_rng();
    let mut game = game(&[(0, 0), (1, 0), (2, 0)], Move::Right, (9, 9));
    game.tick(&mut rng);
    assert!(game.is_dead());
    let snake = game.snake().clone();
    for heading in Move::iter() {
        game.request_direction(heading);
        assert_eq!(game.direction(), Move::Right);
    }
    for _ in 0..5 {
        game.tick(&mut rng);
    }
    assert!(game.is_dead());
    assert_eq!(game.snake(), &snake);
    assert_eq!(game.apple(), at(9, 9));
    assert_eq!(game.direction(), Move::Right);
    assert_eq!(game.score(), 0);
}

#[test]
fn reset_idempotence() {
    let mut rng = rand::thread_rng();
    let mut game = game(&[(0, 0), (1, 0), (2, 0), (3, 0)], Move::Right, (9, 9));
    game.tick(&mut rng);
    assert!(game.is_dead());
    game.reset();
    let once = (game.snake().clone(), game.direction(), game.apple(), game.is_dead());
    game.reset();
    let twice = (game.snake().clone(), game.direction(), game.apple(), game.is_dead());
    assert_eq!(once, twice);
    assert_eq!(once, (cells(&[(10, 10), (11, 10), (12, 10)]), Move::Left, at(4, 11), false));
    assert_eq!(game.score(), 0);
}

#[test]
fn reset_of_a_live_game_starts_over_too() {
    let mut game = game(&[(4, 4), (5, 4), (6, 4), (7, 4)], Move::Up, (0, 0));
    game.reset();
    let fresh = Game::init();
    assert_eq!(game.snake(), fresh.snake());
    assert_eq!(game.direction(), fresh.direction());
    assert_eq!(game.apple(), fresh.apple());
    assert_eq!(game.is_dead(), fresh.is_dead());
}

#[test]
fn with_state_keeps_what_it_is_given() {
    let game = game(&[(5, 5), (6, 5), (7, 5)], Move::Down, (1, 2));
    assert_eq!(game.snake(), &cells(&[(5, 5), (6, 5), (7, 5)]));
    assert_eq!(game.direction(), Move::Down);
    assert_eq!(game.apple(), at(1, 2));
    assert!(!game.is_dead());
}

#[test]
fn with_state_refuses_a_short_snake() {
    assert!(Game::with_state(cells(&[]), Move::Left, at(0, 0)).is_none());
    assert!(Game::with_state(cells(&[(5, 5)]), Move::Left, at(0, 0)).is_none());
    assert!(Game::with_state(cells(&[(5, 5), (6, 5)]), Move::Left, at(0, 0)).is_none());
}

#[test]
fn with_state_refuses_cells_off_the_board() {
    assert!(Game::with_state(cells(&[(17, 5), (18, 5), (19, 5)]), Move::Left, at(0, 0)).is_none());
    assert!(Game::with_state(cells(&[(5, -1), (5, 0), (5, 1)]), Move::Up, at(0, 0)).is_none());
    assert!(Game::with_state(cells(&[(5, 5), (6, 5), (7, 5)]), Move::Left, at(19, 0)).is_none());
    assert!(Game::with_state(cells(&[(5, 5), (6, 5), (7, 5)]), Move::Left, at(0, -1)).is_none());
}

#[test]
fn with_state_refuses_a_repeated_cell() {
    assert!(Game::with_state(cells(&[(5, 5), (6, 5), (5, 5)]), Move::Left, at(0, 0)).is_none());
}

#[test]
fn with_state_refuses_an_apple_on_the_snake() {
    assert!(Game::with_state(cells(&[(5, 5), (6, 5), (7, 5)]), Move::Left, at(6, 5)).is_none());
    assert!(Game::with_state(cells(&[(5, 5), (6, 5), (7, 5)]), Move::Left, at(5, 5)).is_none());
}

#[test]
fn eating_the_last_free_cell_leaves_the_apple_in_place() {
    let mut rng = rand::thread_rng();
    let snake = board_without(at(4, 10), at(4, 11));
    assert_eq!(snake.len(), 360);
    let mut game = Game::with_state(snake, Move::Up, at(4, 10)).expect("a well-formed state");
    game.tick(&mut rng);
    assert!(!game.is_dead());
    assert_eq!(game.snake().len(), 361);
    assert_eq!(game.snake()[0], at(4, 10));
    assert_eq!(game.apple(), at(4, 10));
    assert_eq!(game.score(), 358);
    game.tick(&mut rng);
    assert!(game.is_dead());
    assert_eq!(game.snake().len(), 361);
    assert_eq!(game.snake()[0], at(4, 9));
}

#[test]
fn tick_finds_the_only_free_cell() {
    let mut rng = rand::thread_rng();
    for _ in 0..5 {
        let mut snake = board_without(at(4, 10), at(4, 11));
        snake.retain(|cell| *cell != at(13, 7));
        assert_eq!(snake.len(), 359);
        let mut game = Game::with_state(snake, Move::Up, at(4, 10)).expect("a well-formed state");
        game.tick(&mut rng);
        assert!(!game.is_dead());
        assert_eq!(game.snake().len(), 360);
        assert_eq!(game.apple(), at(13, 7));
    }
}

#[test]
fn with_state_takes_a_full_board() {
    let snake = board_without(at(-1, -1), at(4, 11));
    assert_eq!(snake.len(), 361);
    assert!(Game::with_state(snake, Move::Up, at(0, 0)).is_some());
}

#[test]
fn a_long_game_keeps_its_promises() {
    let mut rng = rand::thread_rng();
    let mut game = Game::init();
    let turns = [Move::Up, Move::Left, Move::Down, Move::Right, Move::Down, Move::Left];
    for step in 0..5000 {
        let before = game.snake().len();
        let apple = game.apple();
        game.request_direction(turns[(step / 7) % turns.len()]);
        game.tick(&mut rng);
        if game.is_dead() {
            game.reset();
            continue;
        }
        let snake = game.snake();
        if snake[0] == apple {
            assert_eq!(snake.len(), before + 1);
            assert_ne!(game.apple(), apple);
        } else {
            assert_eq!(snake.len(), before);
            assert_eq!(game.apple(), apple);
        }
        assert_eq!(game.score(), snake.len() - 3);
        assert!(game.apple().is_in_bounds());
        assert!(!snake.contains(&game.apple()));
        for (i, cell) in snake.iter().enumerate() {
            assert!(cell.is_in_bounds());
            assert!(!snake[..i].contains(cell));
        }
    }
}
