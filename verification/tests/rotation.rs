use fivetris::game::board::Board;
use fivetris::game::game_state::{
    ClearFlashState, GameMode, GameState, GravityState, HoldState, LockDelayState, QueueState,
    SpinState, Stats,
};
use fivetris::game::highlight::HighlightBoard;
use fivetris::game::piece::{Cell, PieceState, Rotation, RotationCommand, Tetromino};
use fivetris::game::rotation::{
    detect_t_spin, detect_t_spin_mini, fits, freeze_active_piece, kick_offsets, try_move,
    try_rotate,
};

fn test_game_state() -> GameState {
    let board = Board::new(10, 20, 4);
    GameState {
        mode: GameMode::Training,
        highlights: HighlightBoard::new(10, board.total_height()),
        current: PieceState {
            kind: Tetromino::T,
            rotation: Rotation::Spawn,
            x: 3,
            y: 0,
        },
        hold: HoldState::default(),
        queue: QueueState::default(),
        stats: Stats::default(),
        spin: SpinState::default(),
        gravity: GravityState::default(),
        ghost_piece: true,
        auto_color: false,
        auto_lock_on_ground: false,
        mirror_queue_with_field: false,
        highlight_clear: false,
        pc_leftover: 0,
        garbage_hole_pos: 0,
        garbage_hole_size: 0,
        garbage_hole_next_change: 0,
        lock_delay: LockDelayState::default(),
        clear_flash: ClearFlashState::default(),
        board,
    }
}

fn empty_board() -> Board {
    Board::new(10, 20, 4)
}

fn default_game() -> GameState {
    let mut game = test_game_state();
    game.board = empty_board();
    game.highlights.sync_to_board(&game.board);
    game.current.kind = Tetromino::T;
    game.current.rotation = Rotation::Spawn;
    game.current.x = 3;
    game.current.y = 0;
    game
}

#[test]
fn fits_piece_in_open_space() {
    let b = empty_board();
    let p = PieceState {
        kind: Tetromino::T,
        rotation: Rotation::Spawn,
        x: 3,
        y: 10,
    };
    assert!(fits(&b, p));
}

#[test]
fn fits_fails_wall_left() {
    let b = empty_board();
    let p = PieceState {
        kind: Tetromino::T,
        rotation: Rotation::Spawn,
        x: -1,
        y: 10,
    };
    assert!(!fits(&b, p));
}

#[test]
fn fits_fails_wall_right() {
    let b = empty_board();
    let p = PieceState {
        kind: Tetromino::O,
        rotation: Rotation::Spawn,
        x: 9,
        y: 10,
    };
    assert!(!fits(&b, p));
}

#[test]
fn fits_fails_wall_bottom() {
    let b = empty_board();
    let p = PieceState {
        kind: Tetromino::I,
        rotation: Rotation::Spawn,
        x: 3,
        y: 23,
    };
    assert!(!fits(&b, p));
}

#[test]
fn fits_fails_overlap() {
    let mut b = empty_board();
    b.set(4, 10, Cell::I);
    let p = PieceState {
        kind: Tetromino::T,
        rotation: Rotation::Spawn,
        x: 3,
        y: 9,
    };
    assert!(!fits(&b, p));
}

#[test]
fn fits_on_floor_passes() {
    let b = empty_board();
    let p = PieceState {
        kind: Tetromino::T,
        rotation: Rotation::Spawn,
        x: 3,
        y: 21,
    };
    assert!(fits(&b, p));
}

#[test]
fn move_left_success() {
    let mut g = default_game();
    let old_x = g.current.x;
    assert!(try_move(&mut g, -1, 0));
    assert_eq!(g.current.x, old_x - 1);
    assert_eq!(g.current.y, 0);
    assert_eq!(g.spin.last_kick_index, None);
    assert_eq!(g.stats.moves, 1);
}

#[test]
fn move_left_blocked() {
    let mut g = default_game();
    g.current.x = 0;
    g.stats.moves = 0;
    assert!(!try_move(&mut g, -1, 0));
    assert_eq!(g.current.x, 0);
    assert_eq!(g.stats.moves, 0);
}

#[test]
fn move_down_success() {
    let mut g = default_game();
    g.current.y = 10;
    assert!(try_move(&mut g, 0, 1));
    assert_eq!(g.current.y, 11);
}

#[test]
fn rotate_cw_direct() {
    let mut g = default_game();
    g.current = PieceState {
        kind: Tetromino::T,
        rotation: Rotation::Spawn,
        x: 3,
        y: 10,
    };
    assert!(try_rotate(&mut g, RotationCommand::Cw));
    assert_eq!(g.current.rotation, Rotation::Right);
}

#[test]
fn rotate_ccw_direct() {
    let mut g = default_game();
    g.current = PieceState {
        kind: Tetromino::T,
        rotation: Rotation::Spawn,
        x: 3,
        y: 10,
    };
    assert!(try_rotate(&mut g, RotationCommand::Ccw));
    assert_eq!(g.current.rotation, Rotation::Left);
}

#[test]
fn rotate_180_direct() {
    let mut g = default_game();
    g.current = PieceState {
        kind: Tetromino::T,
        rotation: Rotation::Spawn,
        x: 3,
        y: 10,
    };
    assert!(try_rotate(&mut g, RotationCommand::Flip));
    assert_eq!(g.current.rotation, Rotation::Reverse);
}

#[test]
fn rotate_cw_wall_kick_non_i() {
    let mut g = default_game();
    g.current = PieceState {
        kind: Tetromino::T,
        rotation: Rotation::Spawn,
        x: -2,
        y: 10,
    };
    assert!(!try_rotate(&mut g, RotationCommand::Cw));
}

#[test]
fn rotate_cw_wall_kick_non_i_on_floor() {
    let mut g = default_game();
    g.current = PieceState {
        kind: Tetromino::T,
        rotation: Rotation::Spawn,
        x: 8,
        y: 20,
    };
    assert!(try_rotate(&mut g, RotationCommand::Cw));
    assert_eq!(g.current.rotation, Rotation::Right);
    assert_eq!(g.current.x, 7);
    assert_eq!(g.current.y, 20);
    assert_eq!(g.spin.last_kick_index, Some(0));
}

#[test]
fn rotate_i_cw_success() {
    let mut g = default_game();
    g.current = PieceState {
        kind: Tetromino::I,
        rotation: Rotation::Spawn,
        x: 3,
        y: 10,
    };
    assert!(try_rotate(&mut g, RotationCommand::Cw));
    assert_eq!(g.current.rotation, Rotation::Right);
}

#[test]
fn rotate_i_ccw_success() {
    let mut g = default_game();
    g.current = PieceState {
        kind: Tetromino::I,
        rotation: Rotation::Spawn,
        x: 3,
        y: 10,
    };
    assert!(try_rotate(&mut g, RotationCommand::Ccw));
    assert_eq!(g.current.rotation, Rotation::Left);
}

#[test]
fn rotate_i_cw_wall_kick() {
    let mut g = default_game();
    g.current = PieceState {
        kind: Tetromino::I,
        rotation: Rotation::Spawn,
        x: 8,
        y: 10,
    };
    assert!(try_rotate(&mut g, RotationCommand::Cw));
    assert_eq!(g.current.x, 6);
    assert_eq!(g.current.y, 10);
    assert_eq!(g.current.rotation, Rotation::Right);
    assert_eq!(g.spin.last_kick_index, Some(0));
}

#[test]
fn rotate_180_wall_kick() {
    let mut g = default_game();
    g.current = PieceState {
        kind: Tetromino::T,
        rotation: Rotation::Spawn,
        x: -1,
        y: 10,
    };
    assert!(try_rotate(&mut g, RotationCommand::Flip));
    assert_eq!(g.current.x, 0);
    assert_eq!(g.current.y, 9);
    assert_eq!(g.current.rotation, Rotation::Reverse);
    assert_eq!(g.spin.last_kick_index, Some(1));
}

#[test]
fn non_i_180_kick_table_matches_reference() {
    assert_eq!(
        kick_offsets(Tetromino::T, Rotation::Right, RotationCommand::Flip).unwrap(),
        vec![(-1, 0), (-1, 2), (-1, -1), (0, -2), (0, -1)]
    );
}

#[test]
fn i_ccw_kick_table_matches_reference() {
    assert_eq!(
        kick_offsets(Tetromino::I, Rotation::Right, RotationCommand::Ccw).unwrap(),
        vec![(1, 0), (-2, 0), (1, 2), (-2, 1)]
    );
}

#[test]
fn rotate_i_ccw_uses_target_rotation_kick_table() {
    let mut g = default_game();
    g.current = PieceState {
        kind: Tetromino::I,
        rotation: Rotation::Spawn,
        x: 9,
        y: 10,
    };

    assert!(try_rotate(&mut g, RotationCommand::Ccw));
    assert_eq!(g.current.rotation, Rotation::Left);
    assert_eq!(g.current.x, 8);
    assert_eq!(g.current.y, 10);
    assert_eq!(g.spin.last_kick_index, Some(0));
}

#[test]
fn direct_rotation_clears_stale_kick_index() {
    let mut g = default_game();
    g.spin.last_kick_index = Some(2);
    g.current = PieceState {
        kind: Tetromino::T,
        rotation: Rotation::Spawn,
        x: 3,
        y: 10,
    };

    assert!(try_rotate(&mut g, RotationCommand::Cw));
    assert_eq!(g.spin.last_kick_index, None);
}

#[test]
fn o_piece_rotates_in_place_without_kick() {
    let mut g = default_game();
    g.current = PieceState {
        kind: Tetromino::O,
        rotation: Rotation::Spawn,
        x: -1,
        y: 10,
    };

    assert!(try_rotate(&mut g, RotationCommand::Cw));
    assert_eq!(g.current.x, -1);
    assert_eq!(g.current.y, 10);
    assert_eq!(g.current.rotation, Rotation::Right);
    assert_eq!(g.spin.last_kick_index, None);
}

#[test]
fn rotate_failed_does_not_mutate() {
    let mut g = default_game();
    g.current = PieceState {
        kind: Tetromino::I,
        rotation: Rotation::Spawn,
        x: -4,
        y: 10,
    };
    let before = g.current;
    assert!(!try_rotate(&mut g, RotationCommand::Cw));
    assert_eq!(g.current, before);
}

#[test]
fn rotate_none_returns_false() {
    let mut g = default_game();
    assert!(!try_rotate(&mut g, RotationCommand::NoTurn));
}

#[test]
fn rotate_no_kicks_for_i_180() {
    let mut g = default_game();
    g.current = PieceState {
        kind: Tetromino::I,
        rotation: Rotation::Spawn,
        x: 3,
        y: 10,
    };
    g.current = PieceState {
        kind: Tetromino::I,
        rotation: Rotation::Spawn,
        x: -2,
        y: 10,
    };
    assert!(!try_rotate(&mut g, RotationCommand::Flip));
}

#[test]
fn freeze_piece_applies_cells() {
    let mut g = default_game();
    g.current = PieceState {
        kind: Tetromino::T,
        rotation: Rotation::Spawn,
        x: 3,
        y: 10,
    };
    freeze_active_piece(&mut g);
    assert_eq!(g.board.get(3, 11), Cell::T);
    assert_eq!(g.board.get(4, 10), Cell::T);
    assert_eq!(g.board.get(4, 11), Cell::T);
    assert_eq!(g.board.get(5, 11), Cell::T);
}

#[test]
fn freeze_piece_skips_oob_cells() {
    let mut g = default_game();
    g.current = PieceState {
        kind: Tetromino::T,
        rotation: Rotation::Spawn,
        x: -1,
        y: 10,
    };
    freeze_active_piece(&mut g);
    assert_eq!(g.board.get(0, 11), Cell::T);
    assert_eq!(g.board.get(0, 10), Cell::T);
}

#[test]
fn freeze_i_piece() {
    let mut g = default_game();
    g.current = PieceState {
        kind: Tetromino::I,
        rotation: Rotation::Left,
        x: 0,
        y: 10,
    };
    freeze_active_piece(&mut g);
    assert_eq!(g.board.get(1, 10), Cell::I);
    assert_eq!(g.board.get(1, 11), Cell::I);
    assert_eq!(g.board.get(1, 12), Cell::I);
    assert_eq!(g.board.get(1, 13), Cell::I);
}

fn setup_t_spin_scenario(occupied_corners: &[(usize, usize)]) -> GameState {
    let mut g = default_game();
    for &(x, y) in occupied_corners {
        g.board.set(x, y, Cell::Gray);
    }
    g.current = PieceState {
        kind: Tetromino::T,
        rotation: Rotation::Spawn,
        x: 3,
        y: 10,
    };
    g.spin.last_kick_index = Some(0);
    g
}

#[test]
fn t_spin_detected_three_corners() {
    let g = setup_t_spin_scenario(&[(3, 10), (5, 10), (3, 12)]);
    assert!(detect_t_spin(&g));
}

#[test]
fn t_spin_detected_four_corners() {
    let g = setup_t_spin_scenario(&[(3, 10), (5, 10), (3, 12), (5, 12)]);
    assert!(detect_t_spin(&g));
}

#[test]
fn t_spin_not_detected_two_corners() {
    let g = setup_t_spin_scenario(&[(3, 10), (5, 10)]);
    assert!(!detect_t_spin(&g));
}

#[test]
fn t_spin_non_t_piece() {
    let mut g = default_game();
    g.current = PieceState {
        kind: Tetromino::J,
        rotation: Rotation::Spawn,
        x: 3,
        y: 10,
    };
    assert!(!detect_t_spin(&g));
}

#[test]
fn t_spin_negative_oob_serves_as_occupied() {
    let mut g = default_game();
    g.current = PieceState {
        kind: Tetromino::T,
        rotation: Rotation::Spawn,
        x: -1,
        y: 0,
    };
    assert!(!detect_t_spin(&g));
}

#[test]
fn t_spin_mini_when_back_corners_free() {
    let mut g = setup_t_spin_scenario(&[(3, 10), (5, 10), (3, 12)]);
    g.spin.is_t_spin = true;
    g.spin.last_kick_index = Some(0);
    assert!(!detect_t_spin_mini(&g));
}

#[test]
fn t_spin_mini_when_one_back_corner_free() {
    let mut g = setup_t_spin_scenario(&[(5, 10), (3, 12)]);
    g.spin.is_t_spin = true;
    g.spin.last_kick_index = Some(0);
    assert!(detect_t_spin_mini(&g));
}

#[test]
fn t_spin_mini_false_when_kick_index_three() {
    let mut g = setup_t_spin_scenario(&[(3, 10), (5, 10), (3, 12)]);
    g.spin.is_t_spin = true;
    g.spin.last_kick_index = Some(3);
    assert!(!detect_t_spin_mini(&g));
}

#[test]
fn t_spin_mini_false_when_not_t_spin() {
    let g = setup_t_spin_scenario(&[(3, 10), (5, 10)]);
    assert!(!detect_t_spin_mini(&g));
}

#[test]
fn t_spin_mini_false_when_kick_index_none() {
    let mut g = setup_t_spin_scenario(&[(3, 10), (5, 10), (3, 12)]);
    g.spin.is_t_spin = true;
    g.spin.last_kick_index = None;
    assert!(!detect_t_spin_mini(&g));
}

#[test]
fn t_spin_mini_left_rotation() {
    let mut g = default_game();
    g.current = PieceState {
        kind: Tetromino::T,
        rotation: Rotation::Left,
        x: 3,
        y: 10,
    };
    g.board.set(3, 10, Cell::Gray);
    g.board.set(3, 12, Cell::Gray);
    g.board.set(5, 10, Cell::Gray);
    g.spin.is_t_spin = true;
    g.spin.last_kick_index = Some(0);
    assert!(!detect_t_spin_mini(&g));
}

#[test]
fn rotation_sets_t_spin_state() {
    let mut g = default_game();
    g.current = PieceState {
        kind: Tetromino::T,
        rotation: Rotation::Spawn,
        x: 3,
        y: 10,
    };
    g.board.set(3, 10, Cell::Gray);
    g.board.set(5, 10, Cell::Gray);
    g.board.set(3, 12, Cell::Gray);
    assert!(try_rotate(&mut g, RotationCommand::Cw));
    assert!(g.spin.is_t_spin);
}
