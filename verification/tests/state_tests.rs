use snake_game::game::{Food, Game, Snake, BONUS_DURATION_MS};
use snake_game::grid::{Direction, Pos, GRID_HEIGHT, GRID_WIDTH};

fn game_with(body: Vec<(i32, i32)>, direction: Direction, food: Food) -> Game {
    let body = body.into_iter().map(|(x, y)| Pos { x, y }).collect();
    Game {
        snake: Snake { body, direction },
        food,
        score: 0,
        game_over: false,
        game_started: false,
    }
}

fn plain_food(x: i32, y: i32) -> Food {
    Food { position: Pos { x, y }, is_bonus: false, timer_ms: 0 }
}

#[test]
fn head_moves_one_cell_each_direction() {
    let cases = [
        (Direction::Right, Pos { x: 16, y: 10 }),
        (Direction::Left, Pos { x: 14, y: 10 }),
        (Direction::Up, Pos { x: 15, y: 9 }),
        (Direction::Down, Pos { x: 15, y: 11 }),
    ];
    for (d, expected) in cases {
        let mut g = game_with(vec![(15, 10)], Direction::Idle, plain_food(0, 0));
        g.apply_input(d);
        g.tick(100);
        assert_eq!(g.snake.body[0], expected);
        assert!(!g.game_over);
        assert_eq!(g.snake.body.len(), 1);
    }
}

#[test]
fn reversal_is_rejected() {
    let mut g = game_with(vec![(15, 10)], Direction::Right, plain_food(0, 0));
    g.apply_input(Direction::Left);
    assert_eq!(g.snake.direction, Direction::Right);
}

#[test]
fn all_four_reversals_are_rejected() {
    let pairs = [
        (Direction::Right, Direction::Left),
        (Direction::Left, Direction::Right),
        (Direction::Up, Direction::Down),
        (Direction::Down, Direction::Up),
    ];
    for (current, attempted) in pairs {
        let mut g = game_with(vec![(15, 10)], current, plain_food(0, 0));
        g.game_started = true;
        g.apply_input(attempted);
        assert_eq!(g.snake.direction, current);
    }
}

#[test]
fn non_reversal_input_turns_and_starts() {
    let mut g = game_with(vec![(15, 10)], Direction::Right, plain_food(0, 0));
    g.apply_input(Direction::Up);
    assert_eq!(g.snake.direction, Direction::Up);
    assert!(g.game_started);
}

#[test]
fn input_after_game_over_is_ignored() {
    let mut g = game_with(vec![(15, 10)], Direction::Right, plain_food(0, 0));
    g.game_over = true;
    g.apply_input(Direction::Up);
    assert_eq!(g.snake.direction, Direction::Right);
    assert!(!g.game_started);
}

#[test]
fn eating_normal_food_grows_and_scores_one() {
    let mut g = game_with(vec![(5, 5)], Direction::Right, plain_food(6, 5));
    g.game_started = true;
    g.tick(100);
    assert_eq!(g.snake.body.len(), 2);
    assert_eq!(g.snake.body[0], Pos { x: 6, y: 5 });
    assert_eq!(g.score, 1);
    assert!(!g.game_over);
    assert!(!g.snake.body.contains(&g.food.position));
}

#[test]
fn eating_bonus_food_grows_and_scores_five() {
    let food = Food { position: Pos { x: 6, y: 5 }, is_bonus: true, timer_ms: BONUS_DURATION_MS };
    let mut g = game_with(vec![(5, 5)], Direction::Right, food);
    g.game_started = true;
    g.tick(100);
    assert_eq!(g.snake.body.len(), 2);
    assert_eq!(g.score, 5);
    assert!(!g.snake.body.contains(&g.food.position));
}

#[test]
fn moving_off_food_keeps_length() {
    let mut g = game_with(vec![(5, 5), (4, 5), (3, 5)], Direction::Right, plain_food(0, 0));
    g.game_started = true;
    g.tick(100);
    assert_eq!(g.snake.body.len(), 3);
    assert_eq!(g.snake.body[0], Pos { x: 6, y: 5 });
    assert_eq!(g.snake.body[1], Pos { x: 5, y: 5 });
    assert_eq!(g.snake.body[2], Pos { x: 4, y: 5 });
    assert_eq!(g.score, 0);
}

#[test]
fn left_wall_ends_game_without_moving() {
    let mut g = game_with(vec![(0, 10)], Direction::Left, plain_food(5, 5));
    g.game_started = true;
    g.tick(100);
    assert!(g.game_over);
    assert_eq!(g.snake.body, vec![Pos { x: 0, y: 10 }]);
}

#[test]
fn right_wall_ends_game_without_moving() {
    let mut g = game_with(vec![(GRID_WIDTH - 1, 10)], Direction::Right, plain_food(5, 5));
    g.game_started = true;
    g.tick(100);
    assert!(g.game_over);
    assert_eq!(g.snake.body, vec![Pos { x: GRID_WIDTH - 1, y: 10 }]);
}

#[test]
fn top_wall_ends_game_without_moving() {
    let mut g = game_with(vec![(10, 0)], Direction::Up, plain_food(5, 5));
    g.game_started = true;
    g.tick(100);
    assert!(g.game_over);
    assert_eq!(g.snake.body, vec![Pos { x: 10, y: 0 }]);
}

#[test]
fn bottom_wall_ends_game_without_moving() {
    let mut g = game_with(vec![(10, GRID_HEIGHT - 1)], Direction::Down, plain_food(5, 5));
    g.game_started = true;
    g.tick(100);
    assert!(g.game_over);
    assert_eq!(g.snake.body, vec![Pos { x: 10, y: GRID_HEIGHT - 1 }]);
}

#[test]
fn self_collision_on_non_tail_segment_ends_game() {
    // the snake curls: moving down from the head lands on its second cell
    let mut g = game_with(
        vec![(5, 5), (5, 6), (6, 6), (6, 5)],
        Direction::Idle,
        plain_food(0, 0),
    );
    g.snake.direction = Direction::Down;
    g.game_started = true;
    g.tick(100);
    assert!(g.game_over);
    assert_eq!(g.snake.body.len(), 4);
}

#[test]
fn moving_onto_tail_is_allowed() {
    // the tail cell is vacated this very tick, so entering it is no collision
    let mut g = game_with(
        vec![(5, 5), (5, 6), (6, 6), (6, 5)],
        Direction::Right,
        plain_food(0, 0),
    );
    g.game_started = true;
    g.tick(100);
    assert!(!g.game_over);
    assert_eq!(g.snake.body[0], Pos { x: 6, y: 5 });
    assert_eq!(g.snake.body.len(), 4);
}

#[test]
fn growth_onto_tail_square_is_permitted() {
    // food sitting on the tail square cannot arise from play, since placement
    // avoids the body; built directly, it pins the tie-break: the tail is not
    // treated as a collision even though eating keeps it occupied
    let mut g = game_with(vec![(5, 5), (4, 5)], Direction::Left, plain_food(4, 5));
    g.game_started = true;
    g.tick(100);
    assert!(!g.game_over);
    assert_eq!(g.snake.body[0], Pos { x: 4, y: 5 });
    assert_eq!(g.snake.body.len(), 3);
    assert_eq!(g.score, 1);
}

#[test]
fn game_over_state_is_frozen_under_ticks() {
    let mut g = game_with(vec![(5, 5), (4, 5)], Direction::Right, plain_food(9, 9));
    g.game_started = true;
    g.game_over = true;
    g.score = 7;
    for _ in 0..3 {
        g.tick(100);
        assert!(g.game_over);
        assert_eq!(g.snake.body, vec![Pos { x: 5, y: 5 }, Pos { x: 4, y: 5 }]);
        assert_eq!(g.snake.direction, Direction::Right);
        assert_eq!(g.score, 7);
        assert_eq!(g.food.position, Pos { x: 9, y: 9 });
        assert!(g.game_started);
    }
}

#[test]
fn tick_before_start_changes_nothing() {
    let mut g = game_with(vec![(5, 5)], Direction::Idle, plain_food(9, 9));
    g.tick(100);
    assert!(!g.game_over);
    assert!(!g.game_started);
    assert_eq!(g.snake.body.len(), 1);
    assert_eq!(g.food.position, Pos { x: 9, y: 9 });
}

#[test]
fn restart_resets_everything() {
    let mut g = game_with(vec![(5, 5), (4, 5), (3, 5)], Direction::Down, plain_food(9, 9));
    g.game_started = true;
    g.game_over = true;
    g.score = 42;
    g.restart();
    assert_eq!(g.score, 0);
    assert!(!g.game_over);
    assert!(!g.game_started);
    assert_eq!(g.snake.direction, Direction::Idle);
    assert_eq!(g.snake.body, vec![Pos { x: 15, y: 10 }]);
    assert_ne!(g.food.position, Pos { x: 15, y: 10 });
    assert!(g.food.position.x >= 0 && g.food.position.x < GRID_WIDTH);
    assert!(g.food.position.y >= 0 && g.food.position.y < GRID_HEIGHT);
}

#[test]
fn new_game_starts_centred_with_food_off_snake() {
    let g = Game::new();
    assert_eq!(g.snake.body, vec![Pos { x: 15, y: 10 }]);
    assert_eq!(g.snake.direction, Direction::Idle);
    assert_eq!(g.score, 0);
    assert!(!g.game_over);
    assert!(!g.game_started);
    assert_ne!(g.food.position, Pos { x: 15, y: 10 });
    if g.food.is_bonus {
        assert_eq!(g.food.timer_ms, BONUS_DURATION_MS);
    } else {
        assert_eq!(g.food.timer_ms, 0);
    }
}

#[test]
fn bonus_timer_counts_down_without_expiring() {
    let food = Food { position: Pos { x: 0, y: 0 }, is_bonus: true, timer_ms: BONUS_DURATION_MS };
    let mut g = game_with(vec![(5, 5)], Direction::Right, food);
    g.game_started = true;
    g.tick(100);
    assert!(g.food.is_bonus);
    assert_eq!(g.food.timer_ms, BONUS_DURATION_MS - 100);
    assert_eq!(g.food.position, Pos { x: 0, y: 0 });
}

#[test]
fn expired_bonus_food_is_replaced() {
    let food = Food { position: Pos { x: 0, y: 0 }, is_bonus: true, timer_ms: 100 };
    let mut g = game_with(vec![(5, 5)], Direction::Right, food);
    g.game_started = true;
    g.tick(200);
    // the food afterwards is freshly placed: re-rolled, timer reset, off the snake
    if g.food.is_bonus {
        assert_eq!(g.food.timer_ms, BONUS_DURATION_MS);
    } else {
        assert_eq!(g.food.timer_ms, 0);
    }
    assert!(!g.snake.body.contains(&g.food.position));
    assert!(g.food.position.x >= 0 && g.food.position.x < GRID_WIDTH);
    assert!(g.food.position.y >= 0 && g.food.position.y < GRID_HEIGHT);
}

#[test]
fn bonus_timer_reaching_exactly_zero_expires() {
    let food = Food { position: Pos { x: 0, y: 0 }, is_bonus: true, timer_ms: 200 };
    let mut g = game_with(vec![(5, 5)], Direction::Right, food);
    g.game_started = true;
    g.tick(200);
    if g.food.is_bonus {
        assert_eq!(g.food.timer_ms, BONUS_DURATION_MS);
    } else {
        assert_eq!(g.food.timer_ms, 0);
    }
    assert!(!g.snake.body.contains(&g.food.position));
}

#[test]
fn five_ticks_right_across_open_board() {
    let mut g = game_with(vec![(15, 10)], Direction::Idle, plain_food(0, 0));
    g.apply_input(Direction::Right);
    for _ in 0..5 {
        g.tick(100);
    }
    assert_eq!(g.snake.body[0], Pos { x: 20, y: 10 });
    assert_eq!(g.snake.body.len(), 1);
    assert_eq!(g.score, 0);
    assert!(!g.game_over);
}
