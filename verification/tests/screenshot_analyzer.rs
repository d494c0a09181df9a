use fivetris::game::board::Board;
use fivetris::game::game_state::{
    ClearFlashState, GameMode, GameState, GravityState, HoldState, LockDelayState, QueueState,
    SpinState, Stats,
};
use fivetris::game::highlight::HighlightBoard;
use fivetris::game::piece::{Cell, PieceState, Rotation, Tetromino};
use fivetris::platform::screenshot_analyzer::{
    BoardAnalysisResult, ImportError, import_board_from_analysis,
};

fn test_game_state() -> GameState {
    let board = Board::new(10, 20, 4);
    GameState {
        mode: GameMode::Training,
        highlights: HighlightBoard::new(10, board.total_height()),
        current: PieceState {
            kind: Tetromino::T,
            rotation: Rotation::Spawn,
            x: 3,
            y: 0,
        },
        hold: HoldState::default(),
        queue: QueueState::default(),
        stats: Stats::default(),
        spin: SpinState::default(),
        gravity: GravityState::default(),
        ghost_piece: true,
        auto_color: false,
        auto_lock_on_ground: false,
        mirror_queue_with_field: false,
        highlight_clear: false,
        pc_leftover: 0,
        garbage_hole_pos: 0,
        garbage_hole_size: 0,
        garbage_hole_next_change: 0,
        lock_delay: LockDelayState::default(),
        clear_flash: ClearFlashState::default(),
        board,
    }
}

fn make_game_state() -> GameState {
    let mut game = test_game_state();
    game.board = Board::new(10, 20, 4);
    game.highlights = HighlightBoard::new(10, 24);
    game.current.kind = Tetromino::T;
    game.current.y = 22;
    game.hold.swapped_this_turn = true;
    game.hold.infinite_hold = false;
    game.queue.visible = vec![Tetromino::I];
    game.stats.damage = 1;
    game.stats.lines = 2;
    game.stats.moves = 3;
    game.stats.b2b = true;
    game.stats.perfect_clear = true;
    game.stats.combo = 4;
    game.stats.lost = true;
    game.stats.attack_text = Some("attack".to_string());
    game.stats.b2b_text = Some("b2b".to_string());
    game.spin.is_t_spin = true;
    game.spin.is_mini = true;
    game.spin.last_kick_index = Some(1);
    game.lock_delay.active = true;
    game.lock_delay.timer_ms = 100;
    game.lock_delay.moves = 2;
    game.clear_flash.active = true;
    game.clear_flash.lines = vec![20];
    game.clear_flash.timer_ms = 150;
    game
}

#[test]
fn import_board_from_analysis_clears_highlights_and_transient_state() {
    let mut game = make_game_state();
    game.highlights.set(2, 10, 9);

    import_board_from_analysis(
        &mut game,
        BoardAnalysisResult {
            width: 10,
            visible_rows: 2,
            cells: vec![
                Cell::J,
                Cell::Empty,
                Cell::L,
                Cell::Empty,
                Cell::Empty,
                Cell::Empty,
                Cell::Empty,
                Cell::Empty,
                Cell::Empty,
                Cell::Empty,
                Cell::Gray,
                Cell::S,
                Cell::Z,
                Cell::I,
                Cell::O,
                Cell::T,
                Cell::J,
                Cell::L,
                Cell::S,
                Cell::Z,
            ],
        },
    )
    .unwrap();

    assert!(game.highlights.cells.iter().all(|&cell| cell == 0));
    assert!(!game.hold.swapped_this_turn);
    assert!(!game.stats.lost);
    assert!(!game.stats.perfect_clear);
    assert_eq!(game.stats.attack_text, None);
    assert_eq!(game.stats.b2b_text, None);
    assert!(!game.spin.is_t_spin);
    assert!(!game.spin.is_mini);
    assert_eq!(game.spin.last_kick_index, None);
    assert!(!game.lock_delay.active);
    assert_eq!(game.lock_delay.timer_ms, 0);
    assert_eq!(game.lock_delay.moves, 0);
    assert!(!game.clear_flash.active);
    assert!(game.clear_flash.lines.is_empty());
    assert_eq!(game.clear_flash.timer_ms, 0);
}

#[test]
fn import_board_from_analysis_auto_colors_gray_tetromino_regions() {
    let mut game = make_game_state();
    game.auto_color = true;

    import_board_from_analysis(
        &mut game,
        BoardAnalysisResult {
            width: 10,
            visible_rows: 2,
            cells: vec![
                Cell::Empty,
                Cell::Empty,
                Cell::Empty,
                Cell::Empty,
                Cell::Gray,
                Cell::Empty,
                Cell::Empty,
                Cell::Empty,
                Cell::Empty,
                Cell::Empty,
                Cell::Empty,
                Cell::Empty,
                Cell::Empty,
                Cell::Gray,
                Cell::Gray,
                Cell::Gray,
                Cell::Empty,
                Cell::Empty,
                Cell::Empty,
                Cell::Empty,
            ],
        },
    )
    .unwrap();

    let bottom = game.board.total_height() - 1;
    assert_eq!(game.board.get(4, bottom), Cell::T);
    assert_eq!(game.board.get(3, bottom), Cell::T);
    assert_eq!(game.board.get(4, bottom - 1), Cell::T);
    assert_eq!(game.board.get(5, bottom), Cell::T);
}

#[test]
fn import_refuses_a_board_of_another_width() {
    let mut game = make_game_state();
    let before = game.clone();
    let result = import_board_from_analysis(
        &mut game,
        BoardAnalysisResult {
            width: 8,
            visible_rows: 1,
            cells: vec![Cell::Gray; 8],
        },
    );
    assert_eq!(
        result,
        Err(ImportError::WidthMismatch {
            expected: 10,
            actual: 8,
        })
    );
    assert_eq!(game, before);
}

#[test]
fn import_places_rows_at_the_bottom_and_moves_the_piece_to_spawn() {
    let mut game = make_game_state();
    let mut cells = vec![Cell::Empty; 10];
    cells[0] = Cell::Z;
    import_board_from_analysis(
        &mut game,
        BoardAnalysisResult {
            width: 10,
            visible_rows: 1,
            cells,
        },
    )
    .unwrap();
    let bottom = game.board.total_height() - 1;
    assert_eq!(game.board.get(0, bottom), Cell::Z);
    assert_eq!(game.board.get(0, bottom - 1), Cell::Empty);
    assert_eq!(game.current.x, 3);
    assert_eq!(game.current.y, 2);
    assert_eq!(game.current.rotation, Rotation::Spawn);
}
