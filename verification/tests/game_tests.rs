use workpool::game::game_direction::{Direction, InputDevice, Key, KeyboardInput};
use workpool::game::game_display::Canvas;
use workpool::game::snake::{MoveOutcome, Position, Snake};
use workpool::game::{game_tick, GameState, TickAction};

#[test]
fn steering_rules() {
    assert_eq!(Direction::Right.apply(Direction::Left), None);
    assert_eq!(Direction::Right.apply(Direction::Right), None);
    assert_eq!(Direction::Right.apply(Direction::Up), Some(Direction::Up));
    assert_eq!(Direction::Right.apply(Direction::Down), Some(Direction::Down));
    assert_eq!(Direction::Up.apply(Direction::Down), None);
    assert_eq!(Direction::Up.apply(Direction::Quit), None);
    assert_eq!(Direction::Up.apply(Direction::Restart), None);
}

#[test]
fn direction_vectors() {
    assert_eq!(Direction::Up.to_vec(), (0, -1));
    assert_eq!(Direction::Down.to_vec(), (0, 1));
    assert_eq!(Direction::Left.to_vec(), (-1, 0));
    assert_eq!(Direction::Right.to_vec(), (1, 0));
    assert_eq!(Direction::Quit.to_vec(), (0, 0));
    assert_eq!(Direction::Restart.to_vec(), (0, 0));
}

#[test]
fn keyboard_keeps_the_last_meaningful_key() {
    let mut kb = KeyboardInput::new();
    kb.push_key(Key::Char('w'));
    kb.push_key(Key::Char('x'));
    kb.push_key(Key::Down);
    assert_eq!(kb.direction_check(), Some(Direction::Down));
    // The buffer was drained by the first read.
    assert_eq!(kb.direction_check(), None);
    kb.push_key(Key::Char('z'));
    assert_eq!(kb.direction_check(), None);
    kb.push_key(Key::Char('q'));
    assert_eq!(kb.direction_check(), Some(Direction::Quit));
}

#[test]
fn new_snake_lies_in_row_five() {
    let snake = Snake::new();
    assert_eq!(snake.get_head_direction(), Direction::Right);
    assert_eq!(snake.get_snake_body_length(), 3);
    assert_eq!(snake.get_snak_food_position(), Position { x: 5, y: 8 });
    let body: Vec<Position> = snake.get_snake_body().iter().cloned().collect();
    assert_eq!(
        body,
        vec![
            Position { x: 5, y: 5 },
            Position { x: 4, y: 5 },
            Position { x: 3, y: 5 }
        ]
    );
}

#[test]
fn collision_checks() {
    let snake = Snake::new();
    assert_eq!(
        snake.predicted_position(Position { x: 5, y: 5 }, Direction::Right),
        Position { x: 6, y: 5 }
    );
    assert!(snake.is_out_of_bounds(&Position { x: -1, y: 3 }, 40, 15));
    assert!(snake.is_out_of_bounds(&Position { x: 40, y: 3 }, 40, 15));
    assert!(snake.is_out_of_bounds(&Position { x: 3, y: 15 }, 40, 15));
    assert!(!snake.is_out_of_bounds(&Position { x: 39, y: 14 }, 40, 15));
    assert!(snake.is_touch_self_body(&Position { x: 4, y: 5 }, snake.get_snake_body()));
    assert!(!snake.is_touch_self_body(&Position { x: 9, y: 9 }, snake.get_snake_body()));
}

#[test]
fn a_plain_move_shifts_the_body() {
    let mut snake = Snake::new();
    let mut state = GameState::new();
    let outcome = snake.snake_move(&mut state, 40, 15);
    assert_eq!(outcome, MoveOutcome::Moved);
    assert!(!state.get_game_is_suspend());
    assert_eq!(snake.get_snake_body_length(), 3);
    let body: Vec<Position> = snake.get_snake_body().iter().cloned().collect();
    assert_eq!(
        body,
        vec![
            Position { x: 6, y: 5 },
            Position { x: 5, y: 5 },
            Position { x: 4, y: 5 }
        ]
    );
}

#[test]
fn walking_into_the_wall_suspends() {
    let mut snake = Snake::new();
    let mut state = GameState::new();
    snake.set_head_position(Position { x: 39, y: 5 });
    let outcome = snake.snake_move(&mut state, 40, 15);
    assert_eq!(outcome, MoveOutcome::OutOfBounds);
    assert!(state.get_game_is_suspend());
    // The snake itself is untouched.
    assert_eq!(snake.get_snake_body_length(), 3);
}

#[test]
fn eating_grows_and_reseats_the_food() {
    let mut snake = Snake::new();
    let mut state = GameState::new();
    snake.set_head_position(Position { x: 5, y: 7 });
    snake.set_head_direction(Direction::Down);
    let outcome = snake.snake_move(&mut state, 40, 15);
    assert_eq!(outcome, MoveOutcome::Ate);
    assert_eq!(snake.get_snake_body_length(), 4);
    let food = snake.get_snak_food_position();
    assert!(food.x >= 1 && food.x < 40 && food.y >= 1 && food.y < 15);
    assert!(!snake.is_touch_self_body(&food, snake.get_snake_body()));
}

#[test]
fn tick_dispatches_on_suspension_and_input() {
    let mut state = GameState::new();
    let mut snake = Snake::new();
    assert_eq!(
        game_tick(&mut state, &mut snake, Some(Direction::Up), 40, 15),
        TickAction::Stepped
    );
    assert_eq!(snake.get_head_direction(), Direction::Up);

    state.set_game_is_suspend(true);
    assert_eq!(
        game_tick(&mut state, &mut snake, None, 40, 15),
        TickAction::Suspended
    );
    assert_eq!(
        game_tick(&mut state, &mut snake, Some(Direction::Restart), 40, 15),
        TickAction::Restart
    );
    assert_eq!(
        game_tick(&mut state, &mut snake, Some(Direction::Quit), 40, 15),
        TickAction::Exiting
    );
    assert!(!state.get_game_is_runing());
}

#[test]
fn quitting_ends_the_game() {
    let mut state = GameState::new();
    let mut snake = Snake::new();
    assert_eq!(
        game_tick(&mut state, &mut snake, Some(Direction::Quit), 40, 15),
        TickAction::Exiting
    );
    assert!(!state.get_game_is_runing());
}

#[test]
fn canvas_dimensions_and_frame_shape() {
    let mut canvas = Canvas::new();
    assert_eq!(canvas.get_canvas_width(), 40);
    assert_eq!(canvas.get_canvas_height(), 15);
    let snake = Snake::new();
    let mut state = GameState::new();
    let frame = canvas.compose_frame(&snake, &mut state);
    let lines: Vec<&str> = frame.lines().collect();
    // Top border, fifteen rows, bottom border, five lines of text.
    assert_eq!(lines.len(), 1 + 15 + 1 + 5);
    assert_eq!(lines[0], format!("◆{}◆", "▄".repeat(80)));
    assert_eq!(lines[16], format!("◆{}◆", "▀".repeat(80)));
    // Row five carries the snake: head at x 5, body at 4 and 3, each cell
    // followed by a space inside the side walls.
    let mut row5: Vec<char> = Vec::new();
    row5.push('█');
    for x in 0..40 {
        let c = match x {
            5 => 'O',
            3 | 4 => '■',
            _ => ' ',
        };
        row5.push(c);
        row5.push(' ');
    }
    row5.push('█');
    assert_eq!(lines[1 + 5], row5.into_iter().collect::<String>());
    // The food sits at (5, 8).
    assert_eq!(lines[1 + 8].chars().nth(1 + 2 * 5), Some('$'));
    assert_eq!(lines[18], "历史最高分数：0");
    assert_eq!(lines[19], "当前分数：0");
}

#[test]
fn score_is_three_less_than_the_length() {
    let mut canvas = Canvas::new();
    let mut state = GameState::new();
    let mut snake = Snake::new();
    snake.set_head_position(Position { x: 5, y: 7 });
    snake.set_head_direction(Direction::Down);
    snake.snake_move(&mut state, 40, 15);
    let _ = canvas.compose_frame(&snake, &mut state);
    assert_eq!(state.get_game_score(), 1);
}

#[test]
fn fresh_state_defaults() {
    let mut state = GameState::new();
    assert!(state.get_game_is_runing());
    assert!(!state.get_game_is_suspend());
    assert_eq!(state.get_game_score(), 0);
    assert_eq!(state.get_game_historic_score(), 0);
    state.set_game_is_runing(false);
    assert!(!state.get_game_is_runing());
    state.set_game_score(7);
    assert_eq!(state.get_game_score(), 7);
}

#[test]
fn loading_the_stored_score() {
    let mut state = GameState::new();
    state.load_historic_score(b"historic_score: 42\n");
    assert_eq!(state.get_game_historic_score(), 42);

    state.load_historic_score(b"other: 5\nhistoric_score:7\nhistoric_score: 9\n");
    assert_eq!(state.get_game_historic_score(), 7);

    state.load_historic_score(b"");
    assert_eq!(state.get_game_historic_score(), 0);

    state.load_historic_score(b"historic_score: not a number\n");
    assert_eq!(state.get_game_historic_score(), 0);

    state.load_historic_score(b"  historic_score  :   13  \r\n");
    assert_eq!(state.get_game_historic_score(), 13);
}

#[test]
fn saving_a_new_best_score() {
    let mut state = GameState::new();
    state.set_game_score(10);
    let saved = state.save_historic_score(b"").unwrap();
    assert_eq!(saved, b"historic_score: 10\n");
    assert_eq!(state.get_game_historic_score(), 10);

    // A lower score is not stored.
    state.set_game_score(4);
    assert!(state.save_historic_score(&saved).is_none());
    assert_eq!(state.get_game_historic_score(), 10);

    // A higher one replaces the stored line and keeps the others.
    state.set_game_score(12);
    let saved = state
        .save_historic_score(b"greeting: hello\nhistoric_score: 10\ntrailer: bye\n")
        .unwrap();
    assert_eq!(
        saved,
        b"greeting: hello\nhistoric_score: 12\ntrailer: bye\n"
    );
}
