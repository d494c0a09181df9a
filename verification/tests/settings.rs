use fivetris::config::key_names::KeyName;
use fivetris::config::settings::{AppConfig, KeyBindings, PersistedBagMode, ThemeMode};
use fivetris::game::game_state::BagMode;

#[test]
fn default_config_matches_expected_values() {
    let config = AppConfig::default();

    assert!(config.show_ghost);
    assert_eq!(config.volume_percent, 70);
    assert_eq!(config.selected_skin, "default");
    assert_eq!(config.selected_texture, "rounded-square.png");
    assert_eq!(config.das_ms, 133);
    assert_eq!(config.arr_ms, 16);
    assert_eq!(config.sdd_ms, 67);
    assert_eq!(config.sds_ms, 16);
    assert!(config.das_cancel);
    assert_eq!(config.board_width, 10);
    assert_eq!(config.board_visible_height, 20);
    assert_eq!(config.board_hidden_rows, 4);
    assert_eq!(config.board_cell_size, 30);
    assert_eq!(config.preview_cell_size, 14);
    assert!(config.infinite_hold);
    assert!(!config.auto_color);
    assert!(!config.auto_lock_on_ground);
    assert!(!config.mirror_queue);
    assert!(!config.highlight_clear);
    assert!(!config.static_bag);
    assert_eq!(config.bag_mode, PersistedBagMode::SevenBag);
    assert_eq!(config.bindings.pause, KeyName::Escape);
    assert_eq!(config.bindings.move_left, KeyName::Left);
    assert_eq!(config.bindings.hard_drop, vec![KeyName::Up, KeyName::Space]);
    assert!(!config.bindings.hold_with_shift);
}

#[test]
fn available_skins_includes_reference_defaults() {
    let skins = AppConfig::available_skins(Vec::new());

    assert!(
        skins
            .iter()
            .any(|skin| skin.eq_ignore_ascii_case("default"))
    );
    assert!(skins.iter().any(|skin| skin.eq_ignore_ascii_case("chroma")));
}

#[test]
fn available_skins_sorts_and_keeps_first_of_each_name() {
    let installed = vec![
        "Neon".to_string(),
        "chroma".to_string(),
        "alpha".to_string(),
        "NEON".to_string(),
    ];
    let skins = AppConfig::available_skins(installed);

    assert_eq!(skins, vec!["alpha", "CHROMA", "DEFAULT", "Neon"]);
}

#[test]
fn normalize_puts_values_back_in_range() {
    let mut config = AppConfig::default();
    config.volume_percent = 250;
    config.board_width = 0;
    config.board_visible_height = 0;
    config.board_hidden_rows = 9;
    config.ghost_opacity_percent = 101;
    config.grid_brightness = 200;
    config.board_cell_size = 0;
    config.preview_cell_size = 0;
    config.bindings.hard_drop = Vec::new();

    config.normalize();

    assert_eq!(config.volume_percent, 100);
    assert_eq!(config.board_width, 10);
    assert_eq!(config.board_visible_height, 20);
    assert_eq!(config.board_hidden_rows, 4);
    assert_eq!(config.ghost_opacity_percent, 100);
    assert_eq!(config.grid_brightness, 100);
    assert_eq!(config.board_cell_size, 28);
    assert_eq!(config.preview_cell_size, 14);
    assert_eq!(config.bindings.hard_drop, vec![KeyName::Up, KeyName::Space]);

    let once = config.clone();
    config.normalize();
    assert_eq!(config, once);
}

#[test]
fn normalize_keeps_values_in_range() {
    let mut config = AppConfig::default();
    config.board_hidden_rows = 8;
    config.bindings = KeyBindings {
        hard_drop: vec![KeyName::Space],
        ..KeyBindings::default()
    };
    let before = config.clone();

    config.normalize();

    assert_eq!(config, before);
}

#[test]
fn bag_mode_is_saved_under_its_own_name() {
    assert_eq!(PersistedBagMode::from(BagMode::SevenBag), PersistedBagMode::SevenBag);
    assert_eq!(PersistedBagMode::from(BagMode::FourteenBag), PersistedBagMode::FourteenBag);
    assert_eq!(PersistedBagMode::from(BagMode::Random), PersistedBagMode::Random);
    assert_eq!(ThemeMode::default(), ThemeMode::Auto);
}
