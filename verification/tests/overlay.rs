use fivetris::config::settings::AppConfig;
use fivetris::game::game_loop::GameLoop;
use fivetris::game::game_state::{BagMode, GameMode};
use fivetris::render::overlay::{StatusLine, overlay_status_lines};
use fivetris::render::style::{RenderStyle, Rgba};

fn texts(lines: &[StatusLine]) -> Vec<&str> {
    lines.iter().map(|l| l.text.as_str()).collect()
}

#[test]
fn a_quiet_game_shows_nothing() {
    let game = GameLoop::new(GameMode::Training, BagMode::SevenBag, 0, true).game;
    let style = RenderStyle::from_config(&AppConfig::default(), &[]);
    assert!(overlay_status_lines(&game.stats, false, &style).is_empty());
}

#[test]
fn pause_comes_first_and_texts_follow() {
    let mut game = GameLoop::new(GameMode::Training, BagMode::SevenBag, 0, true).game;
    let style = RenderStyle::from_config(&AppConfig::default(), &[]);
    game.stats.lost = true;
    game.stats.attack_text = Some("TETRIS".to_string());
    game.stats.perfect_clear = true;
    game.stats.b2b = true;
    let lines = overlay_status_lines(&game.stats, true, &style);
    assert_eq!(texts(&lines), vec!["PAUSED", "TETRIS", "B2B"]);
    assert!(lines[0].large && !lines[1].large);
    assert_eq!(lines[0].color, style.text_color);
    assert_eq!(lines[1].color, style.theme_colors.warning);
    assert_eq!(lines[2].color, style.theme_colors.success);
}

#[test]
fn a_lost_game_shows_game_over_in_red() {
    let mut game = GameLoop::new(GameMode::Training, BagMode::SevenBag, 0, true).game;
    let style = RenderStyle::from_config(&AppConfig::default(), &[]);
    game.stats.lost = true;
    game.stats.perfect_clear = true;
    game.stats.b2b_text = Some("B2B x2".to_string());
    let lines = overlay_status_lines(&game.stats, false, &style);
    assert_eq!(texts(&lines), vec!["GAME OVER", "PERFECT CLEAR", "B2B x2"]);
    assert_eq!(lines[0].color, Rgba { r: 255, g: 0, b: 0, a: 255 });
}
