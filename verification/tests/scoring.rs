use fivetris::game::board::Board;
use fivetris::game::game_state::{
    BagMode, ClearFlashState, GameMode, GameState, GravityState, HoldState, LineClearKind, LockDelayState,
    QueueState, SpinKind, SpinState, Stats,
};
use fivetris::game::highlight::HighlightBoard;
use fivetris::game::piece::{Cell, PieceState, Rotation, Tetromino};
use fivetris::game::scoring::{grid_add_garbage_line, resolve_lock_and_clears, spawn_garbage};
use fivetris::game::game_loop::GameLoop;

fn test_game_state() -> GameState {
    let board = Board::new(10, 20, 4);
    GameState {
        mode: GameMode::Training,
        highlights: HighlightBoard::new(10, board.total_height()),
        current: PieceState {
            kind: Tetromino::T,
            rotation: Rotation::Spawn,
            x: 3,
            y: 0,
        },
        hold: HoldState::default(),
        queue: QueueState::default(),
        stats: Stats::default(),
        spin: SpinState::default(),
        gravity: GravityState::default(),
        ghost_piece: true,
        auto_color: false,
        auto_lock_on_ground: false,
        mirror_queue_with_field: false,
        highlight_clear: false,
        pc_leftover: 0,
        garbage_hole_pos: 0,
        garbage_hole_size: 0,
        garbage_hole_next_change: 0,
        lock_delay: LockDelayState::default(),
        clear_flash: ClearFlashState::default(),
        board,
    }
}

fn empty_board() -> Board {
    Board::new(10, 20, 4)
}

fn default_game() -> GameState {
    let mut game = test_game_state();
    game.board = empty_board();
    game.highlights.sync_to_board(&game.board);
    game
}

fn fill_row(board: &mut Board, y: usize, cell: Cell) {
    for x in 0..board.width {
        board.set(x, y, cell);
    }
}

fn add_noise_cell(board: &mut Board) {
    board.set(0, 0, Cell::Gray);
}

#[test]
fn single_line_clear_detection() {
    let mut game = default_game();
    add_noise_cell(&mut game.board);
    fill_row(&mut game.board, 23, Cell::I);
    let outcome = resolve_lock_and_clears(&mut game);
    assert_eq!(outcome.lines_cleared, 1);
    assert_eq!(outcome.line_clear_kind, LineClearKind::Single);
    assert_eq!(outcome.damage_delta, 0);
    assert_eq!(outcome.combo_after, 1);
}

#[test]
fn double_line_clear_detection() {
    let mut game = default_game();
    add_noise_cell(&mut game.board);
    fill_row(&mut game.board, 22, Cell::I);
    fill_row(&mut game.board, 23, Cell::I);
    let outcome = resolve_lock_and_clears(&mut game);
    assert_eq!(outcome.lines_cleared, 2);
    assert_eq!(outcome.line_clear_kind, LineClearKind::Double);
    assert_eq!(outcome.damage_delta, 1);
}

#[test]
fn triple_line_clear_detection() {
    let mut game = default_game();
    add_noise_cell(&mut game.board);
    fill_row(&mut game.board, 21, Cell::I);
    fill_row(&mut game.board, 22, Cell::I);
    fill_row(&mut game.board, 23, Cell::I);
    let outcome = resolve_lock_and_clears(&mut game);
    assert_eq!(outcome.lines_cleared, 3);
    assert_eq!(outcome.line_clear_kind, LineClearKind::Triple);
    assert_eq!(outcome.damage_delta, 2);
}

#[test]
fn tetris_line_clear_detection() {
    let mut game = default_game();
    add_noise_cell(&mut game.board);
    fill_row(&mut game.board, 20, Cell::I);
    fill_row(&mut game.board, 21, Cell::I);
    fill_row(&mut game.board, 22, Cell::I);
    fill_row(&mut game.board, 23, Cell::I);
    let outcome = resolve_lock_and_clears(&mut game);
    assert_eq!(outcome.lines_cleared, 4);
    assert_eq!(outcome.line_clear_kind, LineClearKind::Tetris);
    assert_eq!(outcome.damage_delta, 4);
}

#[test]
fn combo_increments_on_consecutive_clears() {
    let mut game = default_game();
    add_noise_cell(&mut game.board);
    fill_row(&mut game.board, 23, Cell::I);
    let r1 = resolve_lock_and_clears(&mut game);
    assert_eq!(r1.combo_after, 1);

    fill_row(&mut game.board, 23, Cell::I);
    let r2 = resolve_lock_and_clears(&mut game);
    assert_eq!(r2.combo_after, 2);

    fill_row(&mut game.board, 23, Cell::I);
    let r3 = resolve_lock_and_clears(&mut game);
    assert_eq!(r3.combo_after, 3);
    assert_eq!(r3.damage_delta, 1);
}

#[test]
fn combo_resets_on_zero_clear() {
    let mut game = default_game();
    fill_row(&mut game.board, 23, Cell::I);
    resolve_lock_and_clears(&mut game);
    assert_eq!(game.stats.combo, 1);

    game.board.clear_all();
    let outcome = resolve_lock_and_clears(&mut game);
    assert_eq!(outcome.lines_cleared, 0);
    assert_eq!(outcome.combo_after, 0);
    assert_eq!(game.stats.combo, 0);
}

#[test]
fn b2b_set_on_tetris() {
    let mut game = default_game();
    add_noise_cell(&mut game.board);
    fill_row(&mut game.board, 20, Cell::I);
    fill_row(&mut game.board, 21, Cell::I);
    fill_row(&mut game.board, 22, Cell::I);
    fill_row(&mut game.board, 23, Cell::I);
    let r1 = resolve_lock_and_clears(&mut game);
    assert!(r1.b2b_after);
    assert_eq!(r1.damage_delta, 4);

    fill_row(&mut game.board, 20, Cell::I);
    fill_row(&mut game.board, 21, Cell::I);
    fill_row(&mut game.board, 22, Cell::I);
    fill_row(&mut game.board, 23, Cell::I);
    let r2 = resolve_lock_and_clears(&mut game);
    assert!(r2.b2b_after);
    assert_eq!(r2.damage_delta, 5);
}

#[test]
fn b2b_resets_on_non_b2b_clear() {
    let mut game = default_game();
    add_noise_cell(&mut game.board);
    fill_row(&mut game.board, 20, Cell::I);
    fill_row(&mut game.board, 21, Cell::I);
    fill_row(&mut game.board, 22, Cell::I);
    fill_row(&mut game.board, 23, Cell::I);
    resolve_lock_and_clears(&mut game);
    assert!(game.stats.b2b);

    add_noise_cell(&mut game.board);
    fill_row(&mut game.board, 23, Cell::I);
    let r2 = resolve_lock_and_clears(&mut game);
    assert!(!r2.b2b_after);
    assert!(!game.stats.b2b);
}

#[test]
fn perfect_clear_detection() {
    let mut game = default_game();
    for y in 0..24 {
        fill_row(&mut game.board, y, Cell::I);
    }
    let outcome = resolve_lock_and_clears(&mut game);
    assert!(outcome.perfect_clear);
    assert!(game.stats.perfect_clear);
    assert!(outcome.damage_delta >= 10);
}

#[test]
fn garbage_line_has_exactly_one_hole() {
    let mut board = empty_board();
    let hole_pos = 3;
    grid_add_garbage_line(&mut board, hole_pos);
    let bottom = board.total_height() - 1;

    let mut holes = 0;
    let mut grays = 0;
    for x in 0..board.width {
        match board.get(x, bottom) {
            Cell::Empty => holes += 1,
            Cell::Gray => grays += 1,
            _ => {}
        }
    }
    assert_eq!(holes, 1);
    assert_eq!(grays, board.width - 1);
}

#[test]
fn combo_bonus_staircase() {
    let mut game = default_game();

    for combo_target in 1..=5 {
        fill_row(&mut game.board, 23, Cell::I);
        let outcome = resolve_lock_and_clears(&mut game);
        assert_eq!(outcome.combo_after, combo_target);
    }

    assert_eq!(game.stats.combo, 5);
}

#[test]
fn board_empty_after_line_clear_and_free_fall() {
    let mut game = default_game();
    fill_row(&mut game.board, 23, Cell::I);
    resolve_lock_and_clears(&mut game);
    for x in 0..game.board.width {
        assert_eq!(game.board.get(x, 23), Cell::Empty);
    }
}

#[test]
fn freeze_piece_writes_cells() {
    let mut board = empty_board();
    let piece = PieceState {
        kind: Tetromino::T,
        rotation: Rotation::Spawn,
        x: 3,
        y: 10,
    };
    board.freeze_piece(piece, Tetromino::T);
    assert_eq!(board.get(3, 11), Cell::T);
    assert_eq!(board.get(4, 10), Cell::T);
    assert_eq!(board.get(4, 11), Cell::T);
    assert_eq!(board.get(5, 11), Cell::T);
}

#[test]
fn t_spin_single_damage() {
    let mut game = default_game();
    game.spin.is_t_spin = true;
    game.spin.is_mini = false;
    add_noise_cell(&mut game.board);
    fill_row(&mut game.board, 23, Cell::I);
    let outcome = resolve_lock_and_clears(&mut game);
    assert_eq!(outcome.lines_cleared, 1);
    assert_eq!(outcome.spin_kind, SpinKind::TSpin);
    assert_eq!(outcome.damage_delta, 2);
}

#[test]
fn t_spin_mini_damage() {
    let mut game = default_game();
    game.spin.is_t_spin = true;
    game.spin.is_mini = true;
    add_noise_cell(&mut game.board);
    fill_row(&mut game.board, 23, Cell::I);
    let outcome = resolve_lock_and_clears(&mut game);
    assert_eq!(outcome.lines_cleared, 1);
    assert_eq!(outcome.spin_kind, SpinKind::Mini);
    assert_eq!(outcome.damage_delta, 0);
}

#[test]
fn push_line_shifts_up() {
    let mut board = empty_board();
    board.set(0, 0, Cell::I);
    board.push_line();
    assert_eq!(board.get(0, 0), Cell::Empty);
    assert_eq!(board.get(0, 0), Cell::Empty);
    assert_eq!(board.get(0, board.total_height() - 1), Cell::Empty);
}

#[test]
fn is_line_full_detects_full_and_partial() {
    let mut board = empty_board();
    assert!(!board.is_line_full(23));
    fill_row(&mut board, 23, Cell::I);
    assert!(board.is_line_full(23));
    board.set(5, 23, Cell::Empty);
    assert!(!board.is_line_full(23));
}

#[test]
fn highlight_clear_shifts_overlay_with_line_clear() {
    let mut game = default_game();
    game.highlight_clear = true;
    game.highlights.set(0, 22, 7);
    game.highlights.set(1, 23, 9);
    add_noise_cell(&mut game.board);
    fill_row(&mut game.board, 23, Cell::I);

    resolve_lock_and_clears(&mut game);

    assert_eq!(game.highlights.get(0, 23), 7);
    assert_eq!(game.highlights.get(1, 23), 0);
    assert_eq!(game.highlights.get(0, 0), 0);
}

fn hole_of_row(board: &Board, y: usize) -> Option<usize> {
    let holes: Vec<usize> = (0..board.width).filter(|&x| board.get(x, y) == Cell::Empty).collect();
    let grays = (0..board.width).filter(|&x| board.get(x, y) == Cell::Gray).count();
    if holes.len() == 1 && grays == board.width - 1 { Some(holes[0]) } else { None }
}

#[test]
fn garbage_holes_keep_their_run_then_move() {
    for seed in 0..20u16 {
        let mut game = GameLoop::new(GameMode::Training, BagMode::SevenBag, seed, true).game;
        game.garbage_hole_pos = 3;
        game.garbage_hole_size = 2;
        spawn_garbage(&mut game);
        let total = game.board.total_height();
        let holes: Vec<usize> = (total - 10..total).map(|y| hole_of_row(&game.board, y).unwrap()).collect();
        // The first two rows laid keep the old column; the third moves.
        assert_eq!(holes[0], 3);
        assert_eq!(holes[1], 3);
        assert_ne!(holes[2], 3);
        // A run lasts one to three rows before the column changes again.
        let mut run = 1;
        for k in 3..10 {
            if holes[k] == holes[k - 1] {
                run += 1;
                assert!(run <= 3);
            } else {
                run = 1;
            }
        }
        assert_eq!(game.garbage_hole_pos, holes[9]);
        assert!(game.garbage_hole_size <= 2);
        for y in 0..total - 10 {
            assert!((0..game.board.width).all(|x| game.board.get(x, y) == Cell::Empty));
        }
    }
}
