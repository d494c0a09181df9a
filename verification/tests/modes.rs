use fivetris::game::board::Board;
use fivetris::game::game_state::{
    ClearFlashState, GameMode, GameState, GravityState, HoldState, LockDelayState, QueueState,
    SpinState, Stats,
};
use fivetris::game::highlight::HighlightBoard;
use fivetris::game::modes::{mirror_field_and_queue, reset_for_mode};
use fivetris::game::piece::{Cell, PieceState, Rotation, Tetromino};

fn test_game_state() -> GameState {
    let board = Board::new(10, 20, 4);
    GameState {
        mode: GameMode::Training,
        highlights: HighlightBoard::new(10, board.total_height()),
        current: PieceState {
            kind: Tetromino::T,
            rotation: Rotation::Spawn,
            x: 3,
            y: 0,
        },
        hold: HoldState::default(),
        queue: QueueState::default(),
        stats: Stats::default(),
        spin: SpinState::default(),
        gravity: GravityState::default(),
        ghost_piece: true,
        auto_color: false,
        auto_lock_on_ground: false,
        mirror_queue_with_field: false,
        highlight_clear: false,
        pc_leftover: 0,
        garbage_hole_pos: 0,
        garbage_hole_size: 0,
        garbage_hole_next_change: 0,
        lock_delay: LockDelayState::default(),
        clear_flash: ClearFlashState::default(),
        board,
    }
}

fn make_game_state() -> GameState {
    let mut game = test_game_state();
    game.board = Board::new(10, 20, 4);
    game.highlights = HighlightBoard::new(10, 24);
    game.current.y = 22;
    game.hold.infinite_hold = false;
    game.queue.visible = vec![Tetromino::I, Tetromino::J, Tetromino::S];
    game
}

#[test]
fn reset_training_clears_board_and_refills_queue() {
    let mut game = make_game_state();
    game.board.set(5, 5, Cell::T);
    game.highlights.set(5, 5, 7);
    game.hold.piece = Some(Tetromino::L);
    game.hold.swapped_this_turn = true;
    game.stats.lines = 10;
    game.stats.damage = 5;

    reset_for_mode(&mut game, GameMode::Training);

    for y in 0..game.board.total_height() {
        for x in 0..game.board.width {
            assert_eq!(game.board.get(x, y), Cell::Empty);
            assert_eq!(game.highlights.get(x, y), 0);
        }
    }

    assert!(game.queue.visible.is_empty());
    assert_eq!(game.hold.piece, None);
    assert!(!game.hold.swapped_this_turn);
    assert_eq!(game.stats.lines, 0);
    assert_eq!(game.stats.damage, 0);
    assert!(!game.stats.lost);
}

#[test]
fn reset_master_enables_gravity() {
    let mut game = make_game_state();
    reset_for_mode(&mut game, GameMode::Master);
    assert_eq!(game.gravity.gravity_hz, Some(1));
}

#[test]
fn reset_cheese_adds_garbage() {
    let mut game = make_game_state();
    reset_for_mode(&mut game, GameMode::Cheese);

    let total = game.board.total_height();
    let bottom = total - 1;
    let garbage_count: usize = (0..game.board.width)
        .map(|x| {
            if game.board.get(x, bottom) != Cell::Empty {
                1
            } else {
                0
            }
        })
        .sum();
    assert_eq!(garbage_count, game.board.width - 1);
}

#[test]
fn reset_four_wide_creates_well() {
    let mut game = make_game_state();
    reset_for_mode(&mut game, GameMode::FourWide);

    let w = game.board.width;
    let h = game.board.total_height();
    let h_center = w / 2 - 2;

    for y in 0..h {
        for x in 0..w {
            if x < h_center || x >= h_center + 4 {
                assert_eq!(
                    game.board.get(x, y),
                    Cell::Gray,
                    "cell ({},{}) should be Gray",
                    x,
                    y
                );
            }
        }
    }
}

#[test]
fn mirror_field_and_queue_mirrors_highlights() {
    let mut game = make_game_state();
    game.highlights.set(0, 5, 4);
    game.highlights.set(9, 6, 8);

    mirror_field_and_queue(&mut game);

    assert_eq!(game.highlights.get(9, 5), 4);
    assert_eq!(game.highlights.get(0, 6), 8);
}

#[test]
fn reset_pc_mode_uses_custom_bag() {
    let mut game = make_game_state();
    game.pc_leftover = 3;
    reset_for_mode(&mut game, GameMode::PerfectClear);

    assert_eq!(game.queue.visible.len(), 3);
    assert_eq!(game.current.kind, Tetromino::I);
}

#[test]
fn mirror_field_and_queue_mirrors_board() {
    let mut game = make_game_state();
    game.board.set(0, 0, Cell::J);
    game.board.set(9, 0, Cell::L);
    game.queue.visible = vec![Tetromino::J, Tetromino::S, Tetromino::T];
    game.hold.piece = Some(Tetromino::Z);

    mirror_field_and_queue(&mut game);

    assert_eq!(game.board.get(9, 0), Cell::L);
    assert_eq!(game.board.get(0, 0), Cell::J);
    assert_eq!(game.queue.visible[0], Tetromino::L);
    assert_eq!(game.queue.visible[1], Tetromino::Z);
    assert_eq!(game.queue.visible[2], Tetromino::T);
    assert_eq!(game.hold.piece, Some(Tetromino::S));
}

#[test]
fn reset_preserves_infinite_hold_setting() {
    let mut game = make_game_state();
    game.hold.infinite_hold = true;
    reset_for_mode(&mut game, GameMode::Training);
    assert!(game.hold.infinite_hold);
}

#[test]
fn reset_pc_mode_with_leftover() {
    let mut game = make_game_state();
    game.pc_leftover = 4;
    reset_for_mode(&mut game, GameMode::PerfectClear);
    assert_eq!(game.queue.visible.len(), 4);
    assert!(!game.hold.swapped_this_turn);
}

#[test]
fn reset_clears_spin_state() {
    let mut game = make_game_state();
    game.spin.is_t_spin = true;
    game.spin.is_mini = true;
    game.spin.last_kick_index = Some(2);

    reset_for_mode(&mut game, GameMode::Training);
    assert!(!game.spin.is_t_spin);
    assert!(!game.spin.is_mini);
    assert_eq!(game.spin.last_kick_index, None);
}
