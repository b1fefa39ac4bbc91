use std::time::Duration;
use std::time::SystemTime;
use tetrs::events::apply_intent;
use tetrs::events::apply_intents;
use tetrs::events::handle_events;
use tetrs::events::Intent;
use tetrs::events::Outcome;
use tetrs::game::Game;
use tetrs::tetromino::Kind;
use tetrs::tetromino::Tetromino;

fn game_with(kind: Kind) -> Game {
    let mut game = Game::new();
    game.current_piece = Some(Tetromino::new(kind));
    game
}

const QUIET: Outcome = Outcome { locked: false, quit: false, timer_reset: false };

#[test]
fn no_piece_means_no_effect() {
    let mut game = Game::new();
    let outcome = apply_intents(&mut game, &vec![Intent::Quit, Intent::HardDrop, Intent::SoftDrop]);
    assert_eq!(outcome, QUIET);
    assert!(game.current_piece.is_none());
    assert_eq!(game.game_map, vec![vec![0u8; 10]; 16]);
}

#[test]
fn empty_batch_leaves_the_piece_alone() {
    let mut game = game_with(Kind::T);
    let outcome = apply_intents(&mut game, &vec![]);
    assert_eq!(outcome, QUIET);
    assert_eq!(game.current_piece, Some(Tetromino::new(Kind::T)));
}

#[test]
fn single_intents_move_by_one() {
    let mut game = game_with(Kind::T);
    assert_eq!(apply_intent(&mut game, Intent::MoveLeft), QUIET);
    assert_eq!(game.current_piece.unwrap().x, 3);
    assert_eq!(apply_intent(&mut game, Intent::MoveRight), QUIET);
    assert_eq!(apply_intent(&mut game, Intent::MoveRight), QUIET);
    assert_eq!(game.current_piece.unwrap().x, 5);
    assert_eq!(apply_intent(&mut game, Intent::Nothing), QUIET);
    assert_eq!(
        apply_intent(&mut game, Intent::SoftDrop),
        Outcome { locked: false, quit: false, timer_reset: true }
    );
    assert_eq!(game.current_piece.unwrap().y, 1);
    assert_eq!(apply_intent(&mut game, Intent::RotateClockwise), QUIET);
    assert_eq!(
        game.current_piece,
        Some(Tetromino { kind: Kind::T, x: 5, y: 1, current_state: 1 })
    );
    assert_eq!(
        apply_intent(&mut game, Intent::Quit),
        Outcome { locked: false, quit: true, timer_reset: false }
    );
}

#[test]
fn moves_of_a_batch_are_summed_and_tried_once() {
    let mut game = game_with(Kind::T);
    let batch = vec![Intent::MoveLeft, Intent::MoveLeft, Intent::MoveRight, Intent::SoftDrop, Intent::SoftDrop];
    let outcome = apply_intents(&mut game, &batch);
    assert_eq!(outcome, Outcome { locked: false, quit: false, timer_reset: true });
    assert_eq!(game.current_piece, Some(Tetromino { kind: Kind::T, x: 3, y: 2, current_state: 0 }));
}

#[test]
fn refused_sideways_move_does_not_lock() {
    let mut game = game_with(Kind::T);
    let batch = vec![Intent::MoveLeft; 5];
    let outcome = apply_intents(&mut game, &batch);
    assert_eq!(outcome, QUIET);
    assert_eq!(game.current_piece, Some(Tetromino::new(Kind::T)));
}

#[test]
fn refused_move_with_a_soft_drop_locks() {
    let mut game = game_with(Kind::T);
    // Five steps left leave the field; the soft drop in the batch turns the refusal into a lock.
    let mut batch = vec![Intent::MoveLeft; 5];
    batch.push(Intent::SoftDrop);
    let outcome = apply_intents(&mut game, &batch);
    assert_eq!(outcome, Outcome { locked: true, quit: false, timer_reset: true });
    assert!(game.current_piece.is_none());
    assert_eq!(game.game_map[0], vec![0, 0, 0, 0, 7, 7, 7, 0, 0, 0]);
    assert_eq!(game.game_map[1], vec![0, 0, 0, 0, 0, 7, 0, 0, 0, 0]);
}

#[test]
fn soft_drop_on_the_floor_locks() {
    let mut game = Game::new();
    game.current_piece = Some(Tetromino { kind: Kind::O, x: 0, y: 14, current_state: 0 });
    let outcome = apply_intent(&mut game, Intent::SoftDrop);
    assert_eq!(outcome, Outcome { locked: true, quit: false, timer_reset: true });
    assert_eq!(game.game_map[14], vec![4, 4, 0, 0, 0, 0, 0, 0, 0, 0]);
    assert_eq!(game.game_map[15], vec![4, 4, 0, 0, 0, 0, 0, 0, 0, 0]);
}

#[test]
fn hard_drop_lands_and_locks() {
    let mut game = game_with(Kind::T);
    let outcome = apply_intent(&mut game, Intent::HardDrop);
    assert_eq!(outcome, Outcome { locked: true, quit: false, timer_reset: true });
    assert!(game.current_piece.is_none());
    assert_eq!(game.game_map[14], vec![0, 0, 0, 0, 7, 7, 7, 0, 0, 0]);
    assert_eq!(game.game_map[15], vec![0, 0, 0, 0, 0, 7, 0, 0, 0, 0]);
    for row in 0..14 {
        assert_eq!(game.game_map[row], vec![0u8; 10]);
    }
}

#[test]
fn hard_drop_ignores_the_moves_of_its_batch() {
    let mut game = game_with(Kind::O);
    let batch = vec![Intent::MoveLeft, Intent::HardDrop, Intent::MoveLeft, Intent::SoftDrop];
    let outcome = apply_intents(&mut game, &batch);
    assert_eq!(outcome, Outcome { locked: true, quit: false, timer_reset: true });
    assert_eq!(game.game_map[15], vec![0, 0, 0, 0, 0, 4, 4, 0, 0, 0]);
}

#[test]
fn rotation_after_a_hard_drop_still_turns_the_piece() {
    let mut game = game_with(Kind::I);
    // The flat I lands in row 15; upright it would need rows 15..=18, so the turn is refused.
    let outcome = apply_intents(&mut game, &vec![Intent::HardDrop, Intent::RotateClockwise]);
    assert!(outcome.locked);
    assert_eq!(game.game_map[15], vec![0, 0, 0, 0, 1, 1, 1, 1, 0, 0]);
    // Turned first, the upright I drops to rows 12..=15.
    let mut other = game_with(Kind::I);
    let outcome = apply_intents(&mut other, &vec![Intent::RotateClockwise, Intent::HardDrop]);
    assert!(outcome.locked);
    for row in 12..16 {
        assert_eq!(other.game_map[row], vec![0, 0, 0, 0, 0, 1, 0, 0, 0, 0]);
    }
    assert_eq!(other.game_map[11], vec![0u8; 10]);
}

#[test]
fn quit_stops_the_batch() {
    let mut game = game_with(Kind::T);
    let batch = vec![Intent::MoveRight, Intent::Quit, Intent::MoveRight, Intent::HardDrop];
    let outcome = apply_intents(&mut game, &batch);
    assert_eq!(outcome, Outcome { locked: false, quit: true, timer_reset: false });
    assert_eq!(game.current_piece, Some(Tetromino { kind: Kind::T, x: 5, y: 0, current_state: 0 }));
}

#[test]
fn hard_drop_that_completes_a_row_books_it() {
    let mut game = Game::new();
    game.current_level = 5;
    for col in 0..10 {
        if !(4..8).contains(&col) {
            game.game_map[15][col] = 2;
        }
    }
    game.current_piece = Some(Tetromino::new(Kind::I));
    let locked = apply_intent(&mut game, Intent::HardDrop).locked;
    assert!(locked);
    assert_eq!((game.score, game.num_lines, game.current_level), (5, 1, 5));
    assert_eq!(game.game_map, vec![vec![0u8; 10]; 16]);
}

#[test]
fn handle_events_raises_quit_and_keeps_the_timer() {
    let mut game = game_with(Kind::T);
    let mut quit = false;
    let start = SystemTime::now() - Duration::from_secs(100);
    let mut timer = start;
    let locked = handle_events(&mut game, &mut quit, &mut timer, &vec![Intent::MoveLeft, Intent::Quit]);
    assert!(!locked);
    assert!(quit);
    assert_eq!(timer, start);
    assert_eq!(game.current_piece.unwrap().x, 3);
    // A raised flag stays raised.
    let locked = handle_events(&mut game, &mut quit, &mut timer, &vec![Intent::Nothing]);
    assert!(!locked);
    assert!(quit);
    assert_eq!(timer, start);
}

#[test]
fn handle_events_restarts_the_timer_on_soft_drop_and_lock() {
    let mut game = game_with(Kind::T);
    let mut quit = false;
    let start = SystemTime::now() - Duration::from_secs(100);
    let mut timer = start;
    let locked = handle_events(&mut game, &mut quit, &mut timer, &vec![Intent::SoftDrop]);
    assert!(!locked);
    assert!(!quit);
    assert!(timer > start);
    assert_eq!(game.current_piece.unwrap().y, 1);
    timer = start;
    let locked = handle_events(&mut game, &mut quit, &mut timer, &vec![Intent::HardDrop]);
    assert!(locked);
    assert!(timer > start);
    assert!(game.current_piece.is_none());
}
