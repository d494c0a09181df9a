use fivetris::game::board::Board;
use fivetris::game::game_state::{
    ClearFlashState, GameMode, GameState, GravityState, HoldState, LockDelayState, QueueState,
    SpinState, Stats,
};
use fivetris::game::highlight::HighlightBoard;
use fivetris::game::hold::{HoldError, hold_swap};
use fivetris::game::piece::{PieceState, Rotation, Tetromino};

fn test_game_state() -> GameState {
    let board = Board::new(10, 20, 4);
    GameState {
        mode: GameMode::Training,
        highlights: HighlightBoard::new(10, board.total_height()),
        current: PieceState {
            kind: Tetromino::T,
            rotation: Rotation::Spawn,
            x: 3,
            y: 0,
        },
        hold: HoldState::default(),
        queue: QueueState::default(),
        stats: Stats::default(),
        spin: SpinState::default(),
        gravity: GravityState::default(),
        ghost_piece: true,
        auto_color: false,
        auto_lock_on_ground: false,
        mirror_queue_with_field: false,
        highlight_clear: false,
        pc_leftover: 0,
        garbage_hole_pos: 0,
        garbage_hole_size: 0,
        garbage_hole_next_change: 0,
        lock_delay: LockDelayState::default(),
        clear_flash: ClearFlashState::default(),
        board,
    }
}

fn make_game_state() -> GameState {
    let mut game = test_game_state();
    game.board = Board::new(10, 20, 4);
    game.highlights.sync_to_board(&game.board);
    game.current.y = 22;
    game.hold.infinite_hold = false;
    game.queue.visible = vec![Tetromino::I, Tetromino::J, Tetromino::S];
    game
}

#[test]
fn hold_swap_into_empty_hold() {
    let mut game = make_game_state();
    assert_eq!(game.hold.piece, None);
    assert!(game.current.kind == Tetromino::T);

    let result = hold_swap(&mut game);
    assert!(result.is_ok());

    assert_eq!(game.hold.piece, Some(Tetromino::T));
    assert_eq!(game.current.kind, Tetromino::I);
}

#[test]
fn hold_swap_returns_previous_held_piece() {
    let mut game = make_game_state();
    game.hold.piece = Some(Tetromino::L);
    game.current.kind = Tetromino::S;

    let result = hold_swap(&mut game);
    assert!(result.is_ok());

    assert_eq!(game.hold.piece, Some(Tetromino::S));
    assert_eq!(game.current.kind, Tetromino::L);
}

#[test]
fn hold_swap_locked_when_swapped_this_turn() {
    let mut game = make_game_state();
    game.hold.swapped_this_turn = true;
    game.hold.infinite_hold = false;

    let result = hold_swap(&mut game);
    assert_eq!(result, Err(HoldError::Locked));
    assert_eq!(game.current.kind, Tetromino::T);
    assert_eq!(game.hold.piece, None);
}

#[test]
fn hold_swap_allows_repeat_with_infinite_hold() {
    let mut game = make_game_state();
    game.hold.swapped_this_turn = true;
    game.hold.infinite_hold = true;
    game.hold.piece = Some(Tetromino::J);
    game.current.kind = Tetromino::L;

    let result = hold_swap(&mut game);
    assert!(result.is_ok());
    assert_eq!(game.hold.piece, Some(Tetromino::L));
    assert_eq!(game.current.kind, Tetromino::J);
    assert!(game.hold.swapped_this_turn);
}

#[test]
fn hold_swap_sets_swapped_flag() {
    let mut game = make_game_state();
    game.hold.infinite_hold = false;
    game.hold.piece = Some(Tetromino::O);

    let result = hold_swap(&mut game);
    assert!(result.is_ok());
    assert!(game.hold.swapped_this_turn);
}

#[test]
fn hold_swap_does_not_set_swapped_flag_with_infinite_hold() {
    let mut game = make_game_state();
    game.hold.infinite_hold = true;
    game.hold.piece = Some(Tetromino::O);

    let result = hold_swap(&mut game);
    assert!(result.is_ok());
    assert!(!game.hold.swapped_this_turn);
}

#[test]
fn hold_swap_resets_piece_position() {
    let mut game = make_game_state();
    game.current.x = 0;
    game.current.y = 0;
    game.current.rotation = Rotation::Right;

    let result = hold_swap(&mut game);
    assert!(result.is_ok());

    assert_eq!(game.current.x, 3);
    assert_eq!(game.current.y, 2);
    assert_eq!(game.current.rotation, Rotation::Spawn);
}

#[test]
fn hold_swap_pops_from_queue_when_hold_empty() {
    let mut game = make_game_state();
    game.queue.visible = vec![Tetromino::I, Tetromino::O, Tetromino::Z];
    game.current.kind = Tetromino::T;

    let result = hold_swap(&mut game);
    assert!(result.is_ok());

    assert_eq!(game.hold.piece, Some(Tetromino::T));
    assert_eq!(game.current.kind, Tetromino::I);
    assert_eq!(game.queue.visible, vec![Tetromino::O, Tetromino::Z]);
}
