use fivetris::game::bag::QueueGenerator;
use fivetris::game::game_loop::{GameLoop, SoundEffect};
use fivetris::game::game_state::{BagMode, GameMode};
use fivetris::game::history::UndoSnapshot;
use fivetris::game::piece::{Cell, Rotation, Tetromino};

#[test]
fn undo_restores_full_gameplay_state() {
    let mut game_loop = GameLoop::new(GameMode::Training, BagMode::SevenBag, 17, true);
    game_loop.queue_generator = QueueGenerator::with_static_sequence(
        BagMode::Random,
        91,
        vec![Tetromino::Mono, Tetromino::J],
    );
    game_loop.gravity_accum = 73;
    game_loop.game.mode = GameMode::Master;
    game_loop.game.board.set(2, 6, Cell::Z);
    game_loop.game.highlights.set(5, 0, 4);
    game_loop.game.current.kind = Tetromino::L;
    game_loop.game.current.rotation = Rotation::Right;
    game_loop.game.current.x = 6;
    game_loop.game.current.y = 8;
    game_loop.game.hold.piece = Some(Tetromino::S);
    game_loop.game.hold.swapped_this_turn = true;
    game_loop.game.queue.visible = vec![Tetromino::O, Tetromino::I, Tetromino::T];
    game_loop.game.queue.seed = 1234;
    game_loop.game.stats.damage = 55;
    game_loop.game.stats.lines = 12;
    game_loop.game.stats.moves = 19;
    game_loop.game.stats.b2b = true;
    game_loop.game.stats.perfect_clear = true;
    game_loop.game.stats.combo = 5;
    game_loop.game.stats.lost = true;
    game_loop.game.stats.attack_text = Some("attack".to_string());
    game_loop.game.stats.b2b_text = Some("b2b".to_string());
    game_loop.game.spin.is_t_spin = true;
    game_loop.game.spin.is_mini = true;
    game_loop.game.spin.last_kick_index = Some(2);
    game_loop.game.gravity.gravity_hz = Some(15);
    game_loop.game.gravity.arr_ms = 1;
    game_loop.game.gravity.das_ms = 85;
    game_loop.game.gravity.sdd_ms = 2;
    game_loop.game.gravity.sds_ms = 3;
    game_loop.game.gravity.das_cancel = true;
    game_loop.game.ghost_piece = false;
    game_loop.game.auto_color = true;
    game_loop.game.mirror_queue_with_field = true;
    game_loop.game.highlight_clear = true;
    game_loop.game.pc_leftover = 4;
    game_loop.game.garbage_hole_pos = 3;
    game_loop.game.garbage_hole_size = 2;
    game_loop.game.garbage_hole_next_change = 8;
    game_loop.game.lock_delay.active = true;
    game_loop.game.lock_delay.timer_ms = 222;
    game_loop.game.lock_delay.moves = 7;
    game_loop.game.lock_delay.max_moves = 19;
    game_loop.game.lock_delay.delay_ms = 600;
    game_loop.game.clear_flash.active = true;
    game_loop.game.clear_flash.lines = vec![17, 18];
    game_loop.game.clear_flash.timer_ms = 99;
    game_loop.game.clear_flash.duration_ms = 333;
    game_loop.pending_sounds.push(SoundEffect::Move);

    let expected_game = game_loop.game.clone();
    let expected_generator = game_loop.queue_generator.clone();
    let expected_gravity_accum = game_loop.gravity_accum;

    game_loop.push_snapshot();

    game_loop.game.mode = GameMode::Cheese;
    game_loop.game.board.set(2, 6, Cell::Empty);
    game_loop.game.highlights.clear_cell(5, 0);
    game_loop.game.current.kind = Tetromino::I;
    game_loop.game.current.rotation = Rotation::Spawn;
    game_loop.game.current.x = 0;
    game_loop.game.current.y = 0;
    game_loop.game.hold.piece = None;
    game_loop.game.hold.swapped_this_turn = false;
    game_loop.game.queue.visible.clear();
    game_loop.game.queue.seed = 1;
    game_loop.game.stats.damage = 0;
    game_loop.game.stats.lines = 0;
    game_loop.game.stats.moves = 0;
    game_loop.game.stats.b2b = false;
    game_loop.game.stats.perfect_clear = false;
    game_loop.game.stats.combo = 0;
    game_loop.game.stats.lost = false;
    game_loop.game.stats.attack_text = None;
    game_loop.game.stats.b2b_text = None;
    game_loop.game.spin.is_t_spin = false;
    game_loop.game.spin.is_mini = false;
    game_loop.game.spin.last_kick_index = None;
    game_loop.game.gravity.gravity_hz = None;
    game_loop.game.gravity.arr_ms = 0;
    game_loop.game.gravity.das_ms = 120;
    game_loop.game.gravity.sdd_ms = 0;
    game_loop.game.gravity.sds_ms = 0;
    game_loop.game.gravity.das_cancel = false;
    game_loop.game.ghost_piece = true;
    game_loop.game.auto_color = false;
    game_loop.game.mirror_queue_with_field = false;
    game_loop.game.highlight_clear = false;
    game_loop.game.pc_leftover = 0;
    game_loop.game.garbage_hole_pos = 0;
    game_loop.game.garbage_hole_size = 0;
    game_loop.game.garbage_hole_next_change = 0;
    game_loop.game.lock_delay.active = false;
    game_loop.game.lock_delay.timer_ms = 0;
    game_loop.game.lock_delay.moves = 0;
    game_loop.game.lock_delay.max_moves = 15;
    game_loop.game.lock_delay.delay_ms = 500;
    game_loop.game.clear_flash.active = false;
    game_loop.game.clear_flash.lines.clear();
    game_loop.game.clear_flash.timer_ms = 0;
    game_loop.game.clear_flash.duration_ms = 300;
    game_loop.queue_generator = QueueGenerator::new(BagMode::SevenBag, 2);
    game_loop.gravity_accum = 0;
    game_loop.pending_sounds.push(SoundEffect::Clear);

    assert!(game_loop.undo());
    assert_eq!(game_loop.game, expected_game);
    assert_eq!(game_loop.queue_generator, expected_generator);
    assert_eq!(game_loop.gravity_accum, expected_gravity_accum);
    assert!(game_loop.pending_sounds.is_empty());
}

#[test]
fn redo_restores_full_gameplay_state() {
    let mut game_loop = GameLoop::new(GameMode::Training, BagMode::SevenBag, 17, true);

    game_loop.game.current.kind = Tetromino::J;
    game_loop.game.stats.damage = 10;
    game_loop.push_snapshot();

    game_loop.game.current.kind = Tetromino::T;
    game_loop.game.spin.last_kick_index = Some(3);
    game_loop.game.highlight_clear = true;
    game_loop.game.lock_delay.active = true;
    game_loop.game.lock_delay.timer_ms = 88;
    game_loop.game.clear_flash.active = true;
    game_loop.game.clear_flash.lines = vec![19];
    game_loop.game.gravity.gravity_hz = Some(30);
    game_loop.game.garbage_hole_next_change = 6;
    game_loop.queue_generator =
        QueueGenerator::with_static_sequence(BagMode::Random, 321, vec![Tetromino::L]);
    game_loop.gravity_accum = 44;
    let expected_game = game_loop.game.clone();
    let expected_generator = game_loop.queue_generator.clone();
    let expected_gravity_accum = game_loop.gravity_accum;
    game_loop.push_snapshot();

    assert!(game_loop.undo());

    game_loop.game.current.kind = Tetromino::I;
    game_loop.game.spin.last_kick_index = None;
    game_loop.game.highlight_clear = false;
    game_loop.game.lock_delay.active = false;
    game_loop.game.lock_delay.timer_ms = 0;
    game_loop.game.clear_flash.active = false;
    game_loop.game.clear_flash.lines.clear();
    game_loop.game.gravity.gravity_hz = None;
    game_loop.game.garbage_hole_next_change = 0;
    game_loop.queue_generator = QueueGenerator::new(BagMode::SevenBag, 1);
    game_loop.gravity_accum = 0;
    game_loop.pending_sounds.push(SoundEffect::Rotate);

    assert!(game_loop.redo());
    assert_eq!(game_loop.game, expected_game);
    assert_eq!(game_loop.queue_generator, expected_generator);
    assert_eq!(game_loop.gravity_accum, expected_gravity_accum);
    assert!(game_loop.pending_sounds.is_empty());
}

#[test]
fn new_with_board_uses_requested_dimensions() {
    let game_loop = GameLoop::new_with_board(
        GameMode::Training,
        BagMode::SevenBag,
        7,
        true,
        false,
        12,
        22,
        5,
        None,
    );

    assert_eq!(game_loop.game.board.width, 12);
    assert_eq!(game_loop.game.board.visible_height, 22);
    assert_eq!(game_loop.game.board.hidden_rows, 5);
    assert_eq!(game_loop.game.highlights.total_height, 27);
    assert_eq!(game_loop.game.current.x, 4);
    assert_eq!(game_loop.game.current.y, 3);
}

#[test]
fn reset_preserves_runtime_handling_settings() {
    let mut game_loop = GameLoop::new(GameMode::Training, BagMode::SevenBag, 7, true);
    game_loop.game.gravity.arr_ms = 16;
    game_loop.game.gravity.das_ms = 120;
    game_loop.game.gravity.sdd_ms = 67;
    game_loop.game.gravity.sds_ms = 16;
    game_loop.game.gravity.das_cancel = true;
    game_loop.game.ghost_piece = false;
    game_loop.game.auto_color = true;
    game_loop.game.mirror_queue_with_field = true;
    game_loop.game.highlight_clear = true;

    game_loop.reset(GameMode::Master, None);

    assert_eq!(game_loop.game.gravity.gravity_hz, Some(1));
    assert_eq!(game_loop.game.gravity.arr_ms, 16);
    assert_eq!(game_loop.game.gravity.das_ms, 120);
    assert_eq!(game_loop.game.gravity.sdd_ms, 67);
    assert_eq!(game_loop.game.gravity.sds_ms, 16);
    assert!(game_loop.game.gravity.das_cancel);
    assert!(!game_loop.game.ghost_piece);
    assert!(game_loop.game.auto_color);
    assert!(game_loop.game.mirror_queue_with_field);
    assert!(game_loop.game.highlight_clear);
}

#[test]
fn spawn_next_keeps_game_seed_in_sync_with_generator() {
    let mut game_loop = GameLoop::new(GameMode::Training, BagMode::SevenBag, 7, true);
    game_loop.game.queue.visible.clear();

    assert!(game_loop.spawn_next());

    assert_eq!(game_loop.game.queue.seed, game_loop.queue_generator.seed);
}

#[test]
fn hold_refill_keeps_game_seed_in_sync_with_generator() {
    let mut game_loop = GameLoop::new(GameMode::Training, BagMode::SevenBag, 7, true);
    game_loop.game.queue.visible = vec![Tetromino::I];
    game_loop.game.current.kind = Tetromino::T;
    game_loop.game.hold.piece = None;

    game_loop.hold_swap().expect("hold should succeed");

    assert_eq!(game_loop.game.queue.seed, game_loop.queue_generator.seed);
}

#[test]
fn reset_rebuilds_generator_from_current_queue_seed() {
    let mut game_loop = GameLoop::new(GameMode::Training, BagMode::SevenBag, 7, true);
    game_loop.game.queue.visible.clear();
    assert!(game_loop.spawn_next());

    let synced_seed = game_loop.game.queue.seed;
    assert_eq!(synced_seed, game_loop.queue_generator.seed);

    game_loop.reset(GameMode::Cheese, None);

    assert_eq!(game_loop.queue_generator.seed, game_loop.game.queue.seed);
    assert_ne!(game_loop.queue_generator.seed, 7);
}

#[test]
fn undo_after_auto_lock_clear_restores_turn_spawn_state() {
    let mut game_loop = GameLoop::new(GameMode::Training, BagMode::SevenBag, 7, true);
    let bottom = game_loop.game.board.total_height() - 1;
    let spawn_y = game_loop.game.board.hidden_rows as i32 - 2;

    for x in 0..game_loop.game.board.width {
        if x != 4 {
            game_loop.game.board.set(x, bottom, Cell::Gray);
        }
    }

    game_loop.game.current.kind = Tetromino::Mono;
    game_loop.game.current.rotation = Rotation::Spawn;
    game_loop.game.current.x = 3;
    game_loop.game.current.y = spawn_y;
    game_loop.turn_start_snapshot = Some(UndoSnapshot::new(
        &game_loop.game,
        &game_loop.queue_generator,
        game_loop.gravity_accum,
    ));
    game_loop.game.current.y = bottom as i32 - 1;
    game_loop.game.lock_delay.active = true;
    game_loop.game.lock_delay.timer_ms = 490;
    game_loop.game.lock_delay.delay_ms = 500;
    game_loop.game.lock_delay.moves = 0;
    game_loop.game.auto_lock_on_ground = true;
    game_loop.game.highlight_clear = true;
    game_loop.game.stats.lines = 0;

    game_loop.tick(10);

    assert_eq!(game_loop.game.stats.lines, 1);
    assert!(game_loop.game.clear_flash.active);

    assert!(game_loop.undo());
    assert_eq!(game_loop.game.stats.lines, 0);
    assert_eq!(game_loop.game.current.y, spawn_y);
    assert_eq!(game_loop.game.lock_delay.timer_ms, 0);
    assert!(!game_loop.game.lock_delay.active);

    game_loop.tick(0);

    assert_eq!(game_loop.game.stats.lines, 0);
    assert_eq!(game_loop.game.lock_delay.timer_ms, 0);
    assert!(!game_loop.game.lock_delay.active);
}

#[test]
fn a_new_game_starts_empty_and_at_rest() {
    for mode in [GameMode::Training, GameMode::Master, GameMode::PerfectClear] {
        let game_loop = GameLoop::new(mode, BagMode::SevenBag, 4, true);
        let game = &game_loop.game;
        assert!(game.board.cells.iter().all(|&c| c == Cell::Empty));
        assert!(game.highlights.cells.iter().all(|&v| v == 0));
        assert_eq!(game.hold.piece, None);
        assert_eq!(game.stats.lines, 0);
        assert_eq!(game.stats.combo, 0);
        assert!(!game.stats.lost);
        assert!(!game.lock_delay.active);
        assert!(!game.clear_flash.active);
        assert_eq!(game.current.kind, Tetromino::I);
        assert_eq!(game.current.rotation, Rotation::Spawn);
        assert_eq!(game.gravity.gravity_hz, if mode == GameMode::Master { Some(1) } else { None });
        assert_eq!(game.queue.visible.len(), if mode == GameMode::PerfectClear { 1 } else { 0 });
    }
}

#[test]
fn a_lost_game_does_not_tick_whatever_the_piece() {
    let mut game_loop = GameLoop::new(GameMode::Training, BagMode::SevenBag, 0, true);
    game_loop.game.stats.lost = true;
    game_loop.game.current.y = i32::MAX;
    let before = game_loop.game.clone();
    game_loop.tick(50);
    assert_eq!(game_loop.game, before);
}
