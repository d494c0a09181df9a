use fivetris::config::settings::{AppConfig, ThemeMode};
use fivetris::config::skins::{BlockStyle, SkinPalette};
use fivetris::game::piece::Cell;
use fivetris::render::style::{
    RenderStyle, Rgba, ThemeColors, cell_color, darken, ghost_alpha, grid_stroke_color, piece_color,
    UiTheme, resolve_theme, textured_cell_tint,
};
use fivetris::game::piece::Tetromino;

fn opaque(r: u8, g: u8, b: u8) -> Rgba {
    Rgba { r, g, b, a: 255 }
}

fn palette(name: &str, background: [u8; 4], style: BlockStyle) -> SkinPalette {
    SkinPalette {
        name: name.to_string(),
        empty: [1, 2, 3, 255],
        i: [10, 11, 12, 255],
        j: [20, 21, 22, 255],
        s: [30, 31, 32, 255],
        o: [40, 41, 42, 255],
        z: [50, 51, 52, 255],
        l: [60, 61, 62, 255],
        t: [70, 71, 72, 255],
        gray: [80, 81, 82, 255],
        field: [90, 91, 92, 255],
        background,
        box_color: [100, 101, 102, 255],
        text: [200, 210, 220, 255],
        style,
    }
}

#[test]
fn without_a_skin_the_default_colours_apply() {
    let config = AppConfig::default();
    let style = RenderStyle::from_config(&config, &[]);
    assert_eq!(style.i_cell, opaque(0, 240, 240));
    assert_eq!(style.t_cell, opaque(180, 0, 255));
    assert_eq!(style.empty_cell, opaque(16, 16, 16));
    assert_eq!(style.gray_cell, opaque(80, 80, 80));
    assert_eq!(style.background, opaque(12, 12, 12));
    assert_eq!(style.text_color, opaque(255, 255, 255));
    assert_eq!(style.filled_stroke, style.box_color);
    assert_eq!(style.corner_radius, 6);
    assert_eq!(style.theme_colors, ThemeColors::new(true));
    assert_eq!(style.ghost_alpha, ghost_alpha(config.ghost_opacity_percent));
    assert_eq!(
        style.ghost_cell,
        Rgba { r: 255, g: 255, b: 255, a: style.ghost_alpha }
    );
}

#[test]
fn a_named_skin_supplies_its_colours_and_style() {
    let config = AppConfig {
        selected_skin: "Neon".to_string(),
        selected_texture: "custom.png".to_string(),
        ghost_opacity_percent: 40,
        grid_brightness: 0,
        ..AppConfig::default()
    };
    let palettes = vec![
        palette("other", [0, 0, 0, 255], BlockStyle::Inset),
        palette("neon", [250, 250, 250, 255], BlockStyle::Flat),
    ];
    let style = RenderStyle::from_config(&config, &palettes);
    assert_eq!(style.i_cell, opaque(10, 11, 12));
    assert_eq!(style.background, opaque(250, 250, 250));
    assert_eq!(style.corner_radius, 1);
    assert_eq!(style.ghost_alpha, 102);
    assert_eq!(style.ghost_cell, Rgba { r: 200, g: 210, b: 220, a: 102 });
    assert_eq!(style.empty_stroke, Rgba { r: 0, g: 0, b: 0, a: 0 });
    assert_eq!(style.theme_colors, ThemeColors::new(false));
    assert_eq!(style.theme_colors.danger, opaque(200, 0, 0));
}

#[test]
fn built_in_textures_set_their_own_rounding() {
    let mut config = AppConfig::default();
    config.selected_texture = "template.png".to_string();
    assert_eq!(RenderStyle::from_config(&config, &[]).corner_radius, 1);
    config.selected_texture = "rounded-square.png".to_string();
    assert_eq!(RenderStyle::from_config(&config, &[]).corner_radius, 6);
}

#[test]
fn grid_lines_lighten_the_background() {
    let background = Rgba { r: 12, g: 100, b: 255, a: 200 };
    assert_eq!(grid_stroke_color(background, 0), Rgba { r: 0, g: 0, b: 0, a: 0 });
    assert_eq!(grid_stroke_color(background, 50), Rgba { r: 133, g: 177, b: 255, a: 200 });
    assert_eq!(grid_stroke_color(background, 100), Rgba { r: 255, g: 255, b: 255, a: 200 });
    assert_eq!(grid_stroke_color(background, 250), grid_stroke_color(background, 100));
}

#[test]
fn ghost_opacity_is_a_share_of_full() {
    assert_eq!(ghost_alpha(0), 0);
    assert_eq!(ghost_alpha(100), 255);
    assert_eq!(ghost_alpha(30), 76);
    assert_eq!(ghost_alpha(200), (200u32 * 255 / 100) as u8);
}

#[test]
fn cells_take_their_colours_from_the_style() {
    let style = RenderStyle::from_config(&AppConfig::default(), &[]);
    assert_eq!(cell_color(Cell::Empty, style), style.empty_cell);
    assert_eq!(cell_color(Cell::Z, style), opaque(255, 40, 0));
    assert_eq!(cell_color(Cell::GhostBlock, style), style.ghost_cell);
    let tint = Rgba { r: 1, g: 2, b: 3, a: 4 };
    assert_eq!(textured_cell_tint(Cell::GhostBlock, tint), tint);
    assert_eq!(textured_cell_tint(Cell::I, tint), opaque(255, 255, 255));
}

#[test]
fn pieces_take_the_colour_of_their_cells() {
    let style = RenderStyle::from_config(&AppConfig::default(), &[]);
    assert_eq!(piece_color(Tetromino::T, style), style.t_cell);
    assert_eq!(piece_color(Tetromino::I, style), opaque(0, 240, 240));
}

#[test]
fn darkening_stops_at_black_and_keeps_opacity() {
    let c = Rgba { r: 100, g: 20, b: 0, a: 77 };
    assert_eq!(darken(c, 30), Rgba { r: 70, g: 0, b: 0, a: 77 });
    assert_eq!(darken(c, 0), c);
}

#[test]
fn the_theme_follows_the_setting_or_the_system() {
    assert_eq!(resolve_theme(ThemeMode::Light, Some(UiTheme::Dark)), UiTheme::Light);
    assert_eq!(resolve_theme(ThemeMode::Dark, Some(UiTheme::Light)), UiTheme::Dark);
    assert_eq!(resolve_theme(ThemeMode::Auto, Some(UiTheme::Light)), UiTheme::Light);
    assert_eq!(resolve_theme(ThemeMode::Auto, None), UiTheme::Dark);
}
