use snake_rs::direction::Direction;
use snake_rs::game::Game;
use snake_rs::game::GameState;
use snake_rs::point::Point;

/// Build a mid-game engine state directly, for scenarios that a fresh game
/// cannot reach deterministically (food placement is random).
fn make_game(
    columns: u16,
    rows: u16,
    snake: Vec<Point>,
    direction: Direction,
    food: Option<Point>,
    score: u32,
) -> Game {
    Game {
        area: (columns as usize) * (rows as usize),
        columns,
        direction,
        food,
        rows,
        score,
        snake,
        state: GameState::Playing,
    }
}

fn assert_food_is_free(game: &Game) {
    let food = (*game.food()).expect("food should be present");
    assert!(food.coords().0 < game.columns && food.coords().1 < game.rows);
    assert!(!game.snake().contains(&food));
}

#[test]
fn point_accessors() {
    let p = Point::new(3, 7);
    assert_eq!(p.coords(), (3, 7));
    assert_eq!(p.x, 3);
    assert_eq!(p.y, 7);
    assert_eq!(Point::default(), Point::new(0, 0));
}

#[test]
fn point_add_translates_componentwise() {
    let p = Point::new(2, 5).add(Point::new(1, 4));
    assert_eq!(p, Point::new(3, 9));
}

#[test]
fn point_random_stays_in_bounds() {
    for _ in 0..100 {
        let p = Point::random(3, 2);
        assert!(p.x < 3 && p.y < 2);
    }
}

#[test]
fn point_random_on_single_cell_grid_is_origin() {
    // [0, 1) holds 0 alone, so the draw is forced.
    assert_eq!(Point::random(1, 1), Point::new(0, 0));
}

#[test]
fn new_game_starts_at_origin_heading_right() {
    let game = Game::new(30, 15);
    assert_eq!(game.snake().as_slice(), &[Point::new(0, 0)]);
    assert_eq!(game.food(), &None);
    assert_eq!(game.score(), 0);
    assert!(!game.is_over());
    assert_eq!(game.direction, Direction::Right);
}

#[test]
fn single_segment_snake_reverses_freely() {
    // One segment: every request is adopted, the reverse included.
    let mut game = make_game(5, 5, vec![Point::new(2, 2)], Direction::Right, None, 0);
    game.left();
    assert_eq!(game.direction, Direction::Left);
    game.right();
    assert_eq!(game.direction, Direction::Right);
    game.up();
    assert_eq!(game.direction, Direction::Up);
    game.down();
    assert_eq!(game.direction, Direction::Down);
    game.up();
    assert_eq!(game.direction, Direction::Up);
}

#[test]
fn longer_snake_cannot_reverse() {
    let body = vec![Point::new(2, 2), Point::new(1, 2)];
    let mut game = make_game(5, 5, body.clone(), Direction::Right, None, 0);
    game.left();
    assert_eq!(game.direction, Direction::Right);
    let mut game = make_game(5, 5, body.clone(), Direction::Left, None, 0);
    game.right();
    assert_eq!(game.direction, Direction::Left);
    let mut game = make_game(5, 5, body.clone(), Direction::Up, None, 0);
    game.down();
    assert_eq!(game.direction, Direction::Up);
    let mut game = make_game(5, 5, body, Direction::Down, None, 0);
    game.up();
    assert_eq!(game.direction, Direction::Down);
}

#[test]
fn longer_snake_adopts_any_non_reverse_heading() {
    let body = vec![Point::new(2, 2), Point::new(1, 2)];
    let mut game = make_game(5, 5, body.clone(), Direction::Right, None, 0);
    game.up();
    assert_eq!(game.direction, Direction::Up);
    let mut game = make_game(5, 5, body.clone(), Direction::Right, None, 0);
    game.down();
    assert_eq!(game.direction, Direction::Down);
    let mut game = make_game(5, 5, body, Direction::Right, None, 0);
    game.right();
    assert_eq!(game.direction, Direction::Right);
}

#[test]
fn movement_wraps_right_edge() {
    let mut game = make_game(5, 5, vec![Point::new(4, 2)], Direction::Right, None, 0);
    game.tick();
    assert_eq!(game.snake().as_slice(), &[Point::new(0, 2)]);
}

#[test]
fn movement_wraps_left_edge() {
    let mut game = make_game(5, 5, vec![Point::new(0, 2)], Direction::Left, None, 0);
    game.tick();
    assert_eq!(game.snake().as_slice(), &[Point::new(4, 2)]);
}

#[test]
fn movement_wraps_top_edge() {
    let mut game = make_game(5, 5, vec![Point::new(2, 0)], Direction::Up, None, 0);
    game.tick();
    assert_eq!(game.snake().as_slice(), &[Point::new(2, 4)]);
}

#[test]
fn movement_wraps_bottom_edge() {
    let mut game = make_game(5, 5, vec![Point::new(2, 4)], Direction::Down, None, 0);
    game.tick();
    assert_eq!(game.snake().as_slice(), &[Point::new(2, 0)]);
}

#[test]
fn eating_scores_grows_and_respawns_food() {
    let mut game = make_game(
        5,
        5,
        vec![Point::new(1, 1)],
        Direction::Right,
        Some(Point::new(2, 1)),
        0,
    );
    game.tick();
    assert_eq!(game.score(), 50);
    assert_eq!(game.snake().as_slice(), &[Point::new(2, 1), Point::new(1, 1)]);
    assert!(!game.is_over());
    // The eaten food is gone; a fresh one sits on a free cell.
    assert_food_is_free(&game);
}

#[test]
fn non_eating_tick_decays_score_and_keeps_length() {
    let snake = vec![Point::new(2, 2), Point::new(1, 2)];
    let mut game = make_game(5, 5, snake, Direction::Right, Some(Point::new(0, 0)), 10);
    game.tick();
    assert_eq!(game.score(), 9);
    assert_eq!(game.snake().as_slice(), &[Point::new(3, 2), Point::new(2, 2)]);
    assert_eq!(game.food(), &Some(Point::new(0, 0)));
    assert!(!game.is_over());
}

#[test]
fn score_never_drops_below_zero() {
    let mut game = make_game(5, 5, vec![Point::new(2, 2)], Direction::Right, None, 0);
    game.tick();
    assert_eq!(game.score(), 0);
}

#[test]
fn self_collision_ends_game_without_mutation() {
    // Head at (1,0) moving down runs into (1,1).
    let body = vec![
        Point::new(1, 0),
        Point::new(1, 1),
        Point::new(0, 1),
        Point::new(0, 0),
    ];
    let mut game = make_game(5, 5, body.clone(), Direction::Down, Some(Point::new(4, 4)), 30);
    game.tick();
    assert!(game.is_over());
    assert_eq!(game.snake().as_slice(), body.as_slice());
    assert_eq!(game.score(), 30);
    assert_eq!(game.food(), &Some(Point::new(4, 4)));
}

#[test]
fn full_board_ends_game() {
    let body = vec![Point::new(0, 0), Point::new(1, 0)];
    let mut game = make_game(2, 1, body.clone(), Direction::Right, None, 5);
    game.tick();
    assert!(game.is_over());
    assert_eq!(game.snake().as_slice(), body.as_slice());
    assert_eq!(game.score(), 5);
}

#[test]
fn over_is_absorbing() {
    let body = vec![Point::new(1, 0), Point::new(1, 1), Point::new(0, 1)];
    let mut game = make_game(3, 3, body.clone(), Direction::Down, Some(Point::new(2, 2)), 12);
    game.tick();
    assert!(game.is_over());
    for _ in 0..5 {
        game.tick();
        assert!(game.is_over());
        assert_eq!(game.snake().as_slice(), body.as_slice());
        assert_eq!(game.score(), 12);
        assert_eq!(game.food(), &Some(Point::new(2, 2)));
    }
}

#[test]
fn first_tick_of_fresh_game() {
    // 5x5 grid, one segment at the origin heading right, no food yet.
    let mut game = Game::new(5, 5);
    game.tick();
    assert_eq!(game.snake().as_slice(), &[Point::new(1, 0)]);
    assert_eq!(game.score(), 0);
    assert!(!game.is_over());
    assert_food_is_free(&game);
}

#[test]
fn food_ahead_of_three_segment_snake() {
    let body = vec![Point::new(2, 0), Point::new(1, 0), Point::new(0, 0)];
    let mut game = make_game(5, 5, body, Direction::Right, Some(Point::new(3, 0)), 7);
    game.tick();
    assert_eq!(game.score(), 57);
    assert_eq!(
        game.snake().as_slice(),
        &[
            Point::new(3, 0),
            Point::new(2, 0),
            Point::new(1, 0),
            Point::new(0, 0),
        ]
    );
    // The eaten food is gone; its replacement sits on a free cell.
    assert_food_is_free(&game);
    assert_ne!(game.food(), &Some(Point::new(3, 0)));
}

#[test]
fn respawn_takes_the_only_free_cell() {
    let mut game = make_game(2, 1, vec![Point::new(0, 0)], Direction::Right, None, 0);
    game.tick();
    assert_eq!(game.snake().as_slice(), &[Point::new(1, 0)]);
    assert_eq!(game.food(), &Some(Point::new(0, 0)));
}

#[test]
fn eating_onto_a_full_board_leaves_no_food() {
    let mut game = make_game(
        2,
        1,
        vec![Point::new(0, 0)],
        Direction::Right,
        Some(Point::new(1, 0)),
        0,
    );
    game.tick();
    assert!(!game.is_over());
    assert_eq!(game.score(), 50);
    assert_eq!(game.snake().as_slice(), &[Point::new(1, 0), Point::new(0, 0)]);
    assert_eq!(game.food(), &None);
}
