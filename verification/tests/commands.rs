use fivetris::config::settings::{AppConfig, PersistedBagMode};
use fivetris::control::actions::AppAction;
use fivetris::control::commands::{
    EditEffect, SettingsEffect, apply_config_to_state, apply_edit_action, apply_settings_action,
    bag_mode_from_config, config_applicable_to, duplicate_config, game_state_loadable, parse_bag_edit,
    parse_hold_edit, queue_text, replace_game_state,
};
use fivetris::game::game_loop::GameLoop;
use fivetris::game::game_state::{BagMode, GameMode};
use fivetris::game::piece::{Cell, Tetromino};

fn test_state() -> GameLoop {
    let mut game_loop = GameLoop::new(GameMode::Training, BagMode::SevenBag, 0, true);
    game_loop.spawn_next();
    game_loop
}

#[test]
fn apply_config_to_state_updates_runtime_fields() {
    let mut state = test_state();
    let config = AppConfig {
        show_ghost: false,
        das_ms: 85,
        arr_ms: 1,
        sdd_ms: 2,
        sds_ms: 3,
        das_cancel: true,
        board_cell_size: 32,
        preview_cell_size: 16,
        infinite_hold: false,
        auto_color: true,
        mirror_queue: true,
        highlight_clear: true,
        ..AppConfig::default()
    };

    let rebuilt = apply_config_to_state(&mut state, &config, None);

    assert!(!rebuilt);
    assert_eq!(state.game.gravity.das_ms, 85);
    assert_eq!(state.game.gravity.arr_ms, 1);
    assert_eq!(state.game.gravity.sdd_ms, 2);
    assert_eq!(state.game.gravity.sds_ms, 3);
    assert!(state.game.gravity.das_cancel);
    assert!(!state.game.ghost_piece);
    assert!(!state.game.hold.infinite_hold);
    assert!(state.game.auto_color);
    assert!(state.game.mirror_queue_with_field);
    assert!(state.game.highlight_clear);
    // The interface takes its cell sizes straight from the settings.
    assert_eq!(f32::from(config.board_cell_size), 32.0);
    assert_eq!(f32::from(config.preview_cell_size), 16.0);
}

#[test]
fn apply_config_to_state_rebuilds_board_and_bag_mode() {
    let mut state = test_state();
    let config = AppConfig {
        board_width: 12,
        board_visible_height: 22,
        board_hidden_rows: 3,
        bag_mode: PersistedBagMode::Random,
        ..AppConfig::default()
    };

    let rebuilt = apply_config_to_state(&mut state, &config, None);

    assert!(rebuilt);
    assert_eq!(state.game.board.width, 12);
    assert_eq!(state.game.board.visible_height, 22);
    assert_eq!(state.game.board.hidden_rows, 3);
    assert_eq!(state.game.queue.mode, BagMode::Random);
}

#[test]
fn rebuilt_board_keeps_mode_and_spawns_a_piece() {
    let mut state = GameLoop::new(GameMode::Training, BagMode::SevenBag, 77, true);
    state.spawn_next();
    state.push_snapshot();
    let config = AppConfig {
        board_width: 8,
        bag_mode: PersistedBagMode::FourteenBag,
        ..AppConfig::default()
    };

    assert!(apply_config_to_state(&mut state, &config, None));
    assert_eq!(state.game.mode, GameMode::Training);
    assert_eq!(state.game.board.width, 8);
    assert_eq!(state.game.current.x, 2);
    assert!(state.history.snapshots.is_empty());
    assert_eq!(state.game.queue.mode, BagMode::FourteenBag);
}

#[test]
fn bag_mode_follows_the_saved_setting() {
    let mut config = AppConfig::default();
    assert_eq!(bag_mode_from_config(&config), BagMode::SevenBag);
    config.bag_mode = PersistedBagMode::FourteenBag;
    assert_eq!(bag_mode_from_config(&config), BagMode::FourteenBag);
    config.bag_mode = PersistedBagMode::Random;
    assert_eq!(bag_mode_from_config(&config), BagMode::Random);
}

#[test]
fn bag_edit_reads_letters_in_either_case_and_skips_white_space() {
    assert_eq!(
        parse_bag_edit(" i j\ts\nz "),
        Some(vec![Tetromino::I, Tetromino::J, Tetromino::S, Tetromino::Z])
    );
    assert_eq!(parse_bag_edit("LOTm"), Some(vec![Tetromino::L, Tetromino::O, Tetromino::T, Tetromino::Mono]));
}

#[test]
fn bag_edit_refuses_unknown_letters_and_empty_text() {
    assert_eq!(parse_bag_edit("IJX"), None);
    assert_eq!(parse_bag_edit("X"), None);
    assert_eq!(parse_bag_edit("   "), None);
    assert_eq!(parse_bag_edit(""), None);
}

#[test]
fn hold_edit_reads_the_first_letter() {
    assert_eq!(parse_hold_edit("t"), Some(Tetromino::T));
    assert_eq!(parse_hold_edit("Ox"), Some(Tetromino::O));
    assert_eq!(parse_hold_edit(" T"), None);
    assert_eq!(parse_hold_edit(""), None);
}

#[test]
fn queue_text_names_each_piece() {
    assert_eq!(queue_text(&vec![Tetromino::T, Tetromino::I, Tetromino::Mono]), "TIM");
    assert_eq!(queue_text(&vec![]), "");
}

#[test]
fn editing_a_cell_paints_it_and_colors_shapes_when_asked() {
    let mut game_loop = test_state();
    game_loop.game.auto_color = false;
    let effect = apply_edit_action(&mut game_loop, AppAction::EditCell(2, 5, Cell::Gray));
    assert_eq!(effect, EditEffect::Done);
    assert_eq!(game_loop.game.board.get(2, 5), Cell::Gray);
    assert!(game_loop.turn_start_snapshot.is_some());

    game_loop.game.auto_color = true;
    apply_edit_action(&mut game_loop, AppAction::EditCell(4, 10, Cell::Gray));
    apply_edit_action(&mut game_loop, AppAction::EditCell(3, 10, Cell::Gray));
    apply_edit_action(&mut game_loop, AppAction::EditCell(5, 10, Cell::Gray));
    assert_eq!(game_loop.game.board.get(4, 10), Cell::Gray);
    apply_edit_action(&mut game_loop, AppAction::EditCell(4, 9, Cell::Gray));
    assert_eq!(game_loop.game.board.get(4, 10), Cell::T);
    assert_eq!(game_loop.game.board.get(4, 9), Cell::T);
    assert_eq!(game_loop.game.board.get(2, 5), Cell::Gray);
}

#[test]
fn editing_off_the_board_changes_no_cell() {
    let mut game_loop = test_state();
    let before = game_loop.game.board.clone();
    assert_eq!(apply_edit_action(&mut game_loop, AppAction::EditCell(-1, 0, Cell::I)), EditEffect::Done);
    assert_eq!(apply_edit_action(&mut game_loop, AppAction::EditCell(10, 0, Cell::I)), EditEffect::Done);
    assert_eq!(apply_edit_action(&mut game_loop, AppAction::EditHighlightCell(0, 24, 3)), EditEffect::Done);
    assert_eq!(game_loop.game.board, before);
    assert!(game_loop.game.highlights.cells.iter().all(|&v| v == 0));
}

#[test]
fn clearing_empties_board_and_overlay() {
    let mut game_loop = test_state();
    apply_edit_action(&mut game_loop, AppAction::EditCell(0, 23, Cell::Z));
    apply_edit_action(&mut game_loop, AppAction::EditHighlightCell(1, 23, 2));
    assert_eq!(game_loop.game.highlights.get(1, 23), 2);
    apply_edit_action(&mut game_loop, AppAction::ClearHighlight);
    assert_eq!(game_loop.game.highlights.get(1, 23), 0);
    assert_eq!(game_loop.game.board.get(0, 23), Cell::Z);
    apply_edit_action(&mut game_loop, AppAction::ClearBoard);
    assert_eq!(game_loop.game.board.get(0, 23), Cell::Empty);
}

#[test]
fn bag_and_hold_editors_replace_only_on_valid_text() {
    let mut game_loop = test_state();
    let opened = apply_edit_action(&mut game_loop, AppAction::StartBagEdit);
    assert_eq!(opened, EditEffect::BagEditOpened(queue_text(&game_loop.game.queue.visible)));
    assert_eq!(
        apply_edit_action(&mut game_loop, AppAction::ApplyBagEdit("oo".to_string())),
        EditEffect::BagEditClosed(true)
    );
    assert_eq!(game_loop.game.queue.visible, vec![Tetromino::O, Tetromino::O]);
    assert_eq!(
        apply_edit_action(&mut game_loop, AppAction::ApplyBagEdit("o?".to_string())),
        EditEffect::BagEditClosed(false)
    );
    assert_eq!(game_loop.game.queue.visible, vec![Tetromino::O, Tetromino::O]);
    assert_eq!(
        apply_edit_action(&mut game_loop, AppAction::ApplyHoldEdit("s".to_string())),
        EditEffect::HoldEditClosed(true)
    );
    assert_eq!(game_loop.game.hold.piece, Some(Tetromino::S));
    assert_eq!(
        apply_edit_action(&mut game_loop, AppAction::ApplyHoldEdit("?".to_string())),
        EditEffect::HoldEditClosed(false)
    );
    assert_eq!(game_loop.game.hold.piece, Some(Tetromino::S));
    assert_eq!(apply_edit_action(&mut game_loop, AppAction::HardDrop), EditEffect::NotAnEdit);
}

#[test]
fn brush_stroke_records_an_undo_step() {
    let mut game_loop = test_state();
    assert!(game_loop.history.snapshots.is_empty());
    apply_edit_action(&mut game_loop, AppAction::BeginBrushStroke);
    assert_eq!(game_loop.history.snapshots.len(), 1);
}

#[test]
fn switches_change_settings_and_game_together() {
    let mut game_loop = test_state();
    let mut config = AppConfig::default();
    let mut pending = None;
    let effect = apply_settings_action(&mut config, &mut pending, &mut game_loop, None, AppAction::ToggleGhost(false));
    assert_eq!(effect, SettingsEffect::Save);
    assert!(!config.show_ghost);
    assert!(!game_loop.game.ghost_piece);
    apply_settings_action(&mut config, &mut pending, &mut game_loop, None, AppAction::ToggleAutoColor(true));
    assert!(config.auto_color && game_loop.game.auto_color);
    apply_settings_action(&mut config, &mut pending, &mut game_loop, None, AppAction::ToggleAutoLockOnGround(true));
    assert!(config.auto_lock_on_ground && game_loop.game.auto_lock_on_ground);
    let effect = apply_settings_action(&mut config, &mut pending, &mut game_loop, None, AppAction::SetVolume(250));
    assert_eq!(effect, SettingsEffect::SaveVolume(100));
    assert_eq!(config.volume_percent, 100);
    let effect = apply_settings_action(&mut config, &mut pending, &mut game_loop, None, AppAction::SelectSkin("neon".to_string()));
    assert_eq!(effect, SettingsEffect::SkinSelected);
    assert_eq!(config.selected_skin, "neon");
    let effect = apply_settings_action(&mut config, &mut pending, &mut game_loop, None, AppAction::SelectTexture("flat.png".to_string()));
    assert_eq!(effect, SettingsEffect::TextureSelected);
    assert_eq!(config.selected_texture, "flat.png");
    assert_eq!(
        apply_settings_action(&mut config, &mut pending, &mut game_loop, None, AppAction::HardDrop),
        SettingsEffect::NotASetting
    );
}

#[test]
fn pending_settings_apply_keep_and_confirm_clear() {
    let mut game_loop = test_state();
    let mut config = AppConfig::default();
    let wanted = AppConfig { board_width: 12, das_ms: 90, ..AppConfig::default() };
    let mut pending = Some(wanted.clone());

    assert!(config_applicable_to(&game_loop, &wanted));
    let effect = apply_settings_action(&mut config, &mut pending, &mut game_loop, None, AppAction::ApplySettings);
    assert_eq!(effect, SettingsEffect::Applied(true));
    assert_eq!(config, wanted);
    assert_eq!(pending, Some(wanted.clone()));
    assert_eq!(game_loop.game.board.width, 12);
    assert_eq!(game_loop.game.gravity.das_ms, 90);

    let effect = apply_settings_action(&mut config, &mut pending, &mut game_loop, None, AppAction::ConfirmSettings);
    assert_eq!(effect, SettingsEffect::Applied(false));
    assert_eq!(pending, None);

    let effect = apply_settings_action(&mut config, &mut pending, &mut game_loop, None, AppAction::ConfirmSettings);
    assert_eq!(effect, SettingsEffect::NothingPending);
    pending = Some(AppConfig::default());
    let effect = apply_settings_action(&mut config, &mut pending, &mut game_loop, None, AppAction::CancelSettings);
    assert_eq!(effect, SettingsEffect::Cancelled);
    assert_eq!(pending, None);
    assert_eq!(config, wanted);
}

#[test]
fn unbuildable_boards_are_not_applicable() {
    let mut game_loop = GameLoop::new(GameMode::FourWide, BagMode::SevenBag, 0, true);
    game_loop.spawn_next();
    let narrow = AppConfig { board_width: 3, ..AppConfig::default() };
    assert!(!config_applicable_to(&game_loop, &narrow));
    let huge = AppConfig { board_visible_height: usize::MAX, ..AppConfig::default() };
    assert!(!config_applicable_to(&game_loop, &huge));
    assert!(config_applicable_to(&game_loop, &AppConfig::default()));
}

#[test]
fn a_copied_config_equals_its_source() {
    let config = AppConfig { selected_skin: "x".to_string(), ..AppConfig::default() };
    assert_eq!(duplicate_config(&config), config);
}

#[test]
fn pasted_game_replaces_the_running_one() {
    let mut game_loop = test_state();
    apply_edit_action(&mut game_loop, AppAction::BeginBrushStroke);
    game_loop.gravity_accum = 7;
    let mut other = GameLoop::new(GameMode::Cheese, BagMode::FourteenBag, 9, false).game;
    other.queue.visible = vec![Tetromino::T];
    let config = AppConfig { das_ms: 50, ..AppConfig::default() };
    assert!(game_state_loadable(&other));
    replace_game_state(&mut game_loop, other, &config, None);
    assert_eq!(game_loop.game.mode, GameMode::Cheese);
    assert_eq!(game_loop.game.queue.visible, vec![Tetromino::T]);
    assert!(game_loop.history.snapshots.is_empty());
    assert_eq!(game_loop.gravity_accum, 0);
    assert_eq!(game_loop.game.gravity.das_ms, 50);
    assert!(game_loop.game.hold.infinite_hold);
    assert_eq!(game_loop.queue_generator.mode, BagMode::FourteenBag);
    assert_eq!(game_loop.queue_generator.seed, 9);
}

#[test]
fn malformed_games_are_not_loadable() {
    assert!(game_state_loadable(&test_state().game));
    let mut short = test_state().game;
    short.board.cells.pop();
    assert!(!game_state_loadable(&short));
    let mut mismatched = test_state().game;
    mismatched.highlights.width = 3;
    assert!(!game_state_loadable(&mismatched));
}
