use fivetris::config::key_names::KeyName;
use fivetris::config::settings::{AppConfig, PersistedBagMode};
use fivetris::control::commands::apply_config_to_state;
use fivetris::game::bag::QueueGenerator;
use fivetris::game::board::Board;
use fivetris::game::game_loop::GameLoop;
use fivetris::game::game_state::{
    BagMode, ClearFlashState, GameMode, GameState, GravityState, HoldState, LockDelayState,
    QueueState, SpinState, Stats,
};
use fivetris::game::highlight::HighlightBoard;
use fivetris::game::history::{History, UndoSnapshot};
use fivetris::game::hold::hold_swap;
use fivetris::game::modes::mirror_field_and_queue;
use fivetris::game::piece::{Cell, PieceState, Rotation, RotationCommand, Tetromino};
use fivetris::game::rotation::target_rotation;

fn test_game_state() -> GameState {
    let board = Board::new(10, 20, 4);
    GameState {
        mode: GameMode::Training,
        highlights: HighlightBoard::new(10, board.total_height()),
        current: PieceState {
            kind: Tetromino::T,
            rotation: Rotation::Spawn,
            x: 3,
            y: 0,
        },
        hold: HoldState::default(),
        queue: QueueState::default(),
        stats: Stats::default(),
        spin: SpinState::default(),
        gravity: GravityState::default(),
        ghost_piece: true,
        auto_color: false,
        auto_lock_on_ground: false,
        mirror_queue_with_field: false,
        highlight_clear: false,
        pc_leftover: 0,
        garbage_hole_pos: 0,
        garbage_hole_size: 0,
        garbage_hole_next_change: 0,
        lock_delay: LockDelayState::default(),
        clear_flash: ClearFlashState::default(),
        board,
    }
}

#[test]
fn holding_twice_with_infinite_hold_restores_pieces() {
    let mut game = test_game_state();
    game.hold.infinite_hold = true;
    game.hold.piece = Some(Tetromino::L);
    game.current.kind = Tetromino::S;
    hold_swap(&mut game).unwrap();
    hold_swap(&mut game).unwrap();
    assert_eq!(game.current.kind, Tetromino::S);
    assert_eq!(game.hold.piece, Some(Tetromino::L));
    assert_eq!(game.current.rotation, Rotation::Spawn);
}

#[test]
fn opposite_turns_cancel_and_four_quarter_turns_return() {
    for r in [Rotation::Spawn, Rotation::Left, Rotation::Reverse, Rotation::Right] {
        assert_eq!(target_rotation(target_rotation(r, RotationCommand::Cw), RotationCommand::Ccw), r);
        assert_eq!(target_rotation(target_rotation(r, RotationCommand::Flip), RotationCommand::Flip), r);
        let mut t = r;
        for _ in 0..4 {
            t = target_rotation(t, RotationCommand::Cw);
        }
        assert_eq!(t, r);
        assert_eq!(target_rotation(r, RotationCommand::NoTurn), r);
    }
}

#[test]
fn mirroring_twice_restores_field_queue_and_hold() {
    let mut game = test_game_state();
    game.board.set(0, 5, Cell::J);
    game.board.set(7, 9, Cell::S);
    game.highlights.set(2, 3, 5);
    game.queue.visible = vec![Tetromino::J, Tetromino::S, Tetromino::T];
    game.hold.piece = Some(Tetromino::Z);
    let before = game.clone();
    mirror_field_and_queue(&mut game);
    assert_ne!(game, before);
    mirror_field_and_queue(&mut game);
    assert_eq!(game, before);
}

#[test]
fn undo_right_after_a_push_gives_back_the_pushed_snapshot() {
    let mut history = History::new(5);
    let game = test_game_state();
    let snapshot = UndoSnapshot::new(&game, &QueueGenerator::new(BagMode::SevenBag, 3), 9);
    history.push(snapshot.clone());
    assert_eq!(history.undo(), Some(snapshot.clone()));
    assert_eq!(history.redo(), Some(snapshot));
}

#[test]
fn undo_after_push_snapshot_restores_the_game_and_redo_returns() {
    let mut game_loop = GameLoop::new(GameMode::Training, BagMode::SevenBag, 1, true);
    game_loop.spawn_next();
    game_loop.push_snapshot();
    let pushed = game_loop.game.clone();
    assert!(game_loop.try_move_piece(1, 0));
    game_loop.push_snapshot();
    let moved = game_loop.game.clone();
    assert!(game_loop.undo());
    assert_eq!(game_loop.game, moved);
    assert!(game_loop.undo());
    assert_eq!(game_loop.game, pushed);
    assert!(game_loop.redo());
    assert_eq!(game_loop.game, pushed);
}

#[test]
fn every_key_name_reads_back() {
    for key in KeyName::all() {
        assert_eq!(KeyName::lookup(key.serialized_name()), Some(key));
        assert_eq!(KeyName::lookup(key.display_name()), Some(key));
    }
}

#[test]
fn applied_settings_need_no_second_rebuild() {
    let mut game_loop = GameLoop::new(GameMode::Training, BagMode::SevenBag, 3, true);
    game_loop.spawn_next();
    let config = AppConfig {
        board_width: 11,
        bag_mode: PersistedBagMode::Random,
        das_ms: 70,
        ..AppConfig::default()
    };
    assert!(apply_config_to_state(&mut game_loop, &config, None));
    let settled = game_loop.game.clone();
    assert!(!apply_config_to_state(&mut game_loop, &config, None));
    assert_eq!(game_loop.game, settled);
}
