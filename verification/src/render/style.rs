use vstd::prelude::*;

use crate::config::settings::{AppConfig, ThemeMode};
use crate::config::skins::{BlockStyle, SkinPalette, find_skin_palette, first_named};
use crate::game::piece::{Cell, Tetromino, cell_from_piece, spec_cell_from_piece};
use crate::game::text::{same_chars, str_chars};

verus! {

/// A colour: red, green, blue and opacity, the colour channels already
/// multiplied by the opacity.
#[derive(Debug, Clone, Copy, PartialEq, Eq, Structural)]
pub struct Rgba {
    pub r: u8,
    pub g: u8,
    pub b: u8,
    pub a: u8,
}

/// An opaque colour.
pub open spec fn opaque(r: u8, g: u8, b: u8) -> Rgba {
    Rgba { r, g, b, a: 255 }
}

/// An opaque grey.
pub open spec fn gray(level: u8) -> Rgba {
    opaque(level, level, level)
}

/// Opaque white.
pub open spec fn white() -> Rgba {
    opaque(255, 255, 255)
}

/// A colour read from four stored channels.
pub open spec fn spec_rgba(c: [u8; 4]) -> Rgba {
    Rgba { r: c[0], g: c[1], b: c[2], a: c[3] }
}

/// The colour stored as four channels.
pub fn rgba(c: [u8; 4]) -> (r: Rgba)
    ensures
        r == spec_rgba(c),
{
    Rgba { r: c[0], g: c[1], b: c[2], a: c[3] }
}

/// The colours the interface marks states with, for a dark or a light
/// background.
#[derive(Debug, Clone, Copy, PartialEq, Eq, Structural)]
pub struct ThemeColors {
    pub danger: Rgba,
    pub warning: Rgba,
    pub success: Rgba,
    pub info: Rgba,
}

/// The state colours for a dark (`true`) or light background.
pub open spec fn spec_theme_colors(dark_bg: bool) -> ThemeColors {
    if dark_bg {
        ThemeColors {
            danger: opaque(255, 80, 80),
            warning: opaque(255, 200, 50),
            success: opaque(80, 220, 80),
            info: opaque(80, 180, 255),
        }
    } else {
        ThemeColors {
            danger: opaque(200, 0, 0),
            warning: opaque(180, 120, 0),
            success: opaque(0, 140, 0),
            info: opaque(0, 100, 180),
        }
    }
}

impl ThemeColors {
    /// The state colours for a dark or light background.
    pub fn new(dark_bg: bool) -> (t: Self)
        ensures
            t == spec_theme_colors(dark_bg),
    {
        if dark_bg {
            ThemeColors {
                danger: Rgba { r: 255, g: 80, b: 80, a: 255 },
                warning: Rgba { r: 255, g: 200, b: 50, a: 255 },
                success: Rgba { r: 80, g: 220, b: 80, a: 255 },
                info: Rgba { r: 80, g: 180, b: 255, a: 255 },
            }
        } else {
            ThemeColors {
                danger: Rgba { r: 200, g: 0, b: 0, a: 255 },
                warning: Rgba { r: 180, g: 120, b: 0, a: 255 },
                success: Rgba { r: 0, g: 140, b: 0, a: 255 },
                info: Rgba { r: 0, g: 100, b: 180, a: 255 },
            }
        }
    }
}

/// How the board and pieces are drawn: a colour for each kind of cell, the
/// panel colours, the rounding of the blocks and the grid lines.
#[derive(Debug, Clone, Copy, PartialEq, Eq, Structural)]
pub struct RenderStyle {
    pub colored_ghost: bool,
    pub ghost_alpha: u8,
    pub i_cell: Rgba,
    pub j_cell: Rgba,
    pub s_cell: Rgba,
    pub o_cell: Rgba,
    pub z_cell: Rgba,
    pub l_cell: Rgba,
    pub t_cell: Rgba,
    pub empty_cell: Rgba,
    pub gray_cell: Rgba,
    pub ghost_cell: Rgba,
    pub background: Rgba,
    pub box_color: Rgba,
    pub text_color: Rgba,
    pub corner_radius: u8,
    pub filled_stroke: Rgba,
    pub empty_stroke: Rgba,
    pub theme_colors: ThemeColors,
}

/// A colour channel moved `t` percent of the way towards full brightness.
pub open spec fn lightened(c: u8, t: int) -> int {
    (c * (100 - t) + 255 * t) / 100
}

/// The colour of the grid lines on `background` at `brightness` percent:
/// none at zero, else the background lightened by the brightness (at most
/// 100), with its opacity.
pub open spec fn spec_grid_stroke_color(background: Rgba, brightness: u8) -> Rgba {
    if brightness == 0 {
        Rgba { r: 0, g: 0, b: 0, a: 0 }
    } else {
        let t = if brightness > 100 {
            100
        } else {
            brightness as int
        };
        Rgba {
            r: lightened(background.r, t) as u8,
            g: lightened(background.g, t) as u8,
            b: lightened(background.b, t) as u8,
            a: background.a,
        }
    }
}

/// One channel lightened by `t` percent.
fn lighten(c: u8, t: u32) -> (r: u8)
    requires
        t <= 100,
    ensures
        r == lightened(c, t as int),
{
    let c32 = c as u32;
    assert(c32 * (100 - t) <= 25500) by (nonlinear_arith)
        requires
            c32 <= 255,
            t <= 100,
    ;
    assert(lightened(c, t as int) <= 255) by (nonlinear_arith)
        requires
            c <= 255,
            t <= 100,
    ;
    assert(lightened(c, t as int) >= 0) by (nonlinear_arith)
        requires
            0 <= c,
            t <= 100,
    ;
    ((c32 * (100 - t) + 255 * t) / 100) as u8
}

/// The colour of the grid lines (see `spec_grid_stroke_color`).
pub fn grid_stroke_color(background: Rgba, brightness: u8) -> (r: Rgba)
    ensures
        r == spec_grid_stroke_color(background, brightness),
{
    if brightness == 0 {
        return Rgba { r: 0, g: 0, b: 0, a: 0 };
    }
    let t: u32 = if brightness > 100 {
        100
    } else {
        brightness as u32
    };
    Rgba {
        r: lighten(background.r, t),
        g: lighten(background.g, t),
        b: lighten(background.b, t),
        a: background.a,
    }
}

/// The colour a cell is drawn in.
pub open spec fn spec_cell_color(cell: Cell, style: RenderStyle) -> Rgba {
    match cell {
        Cell::Empty => style.empty_cell,
        Cell::I => style.i_cell,
        Cell::J => style.j_cell,
        Cell::S => style.s_cell,
        Cell::O => style.o_cell,
        Cell::Z => style.z_cell,
        Cell::L => style.l_cell,
        Cell::T => style.t_cell,
        Cell::Gray => style.gray_cell,
        Cell::GhostBlock => style.ghost_cell,
    }
}

/// The colour a cell is drawn in.
pub fn cell_color(cell: Cell, style: RenderStyle) -> (c: Rgba)
    ensures
        c == spec_cell_color(cell, style),
{
    match cell {
        Cell::Empty => style.empty_cell,
        Cell::I => style.i_cell,
        Cell::J => style.j_cell,
        Cell::S => style.s_cell,
        Cell::O => style.o_cell,
        Cell::Z => style.z_cell,
        Cell::L => style.l_cell,
        Cell::T => style.t_cell,
        Cell::Gray => style.gray_cell,
        Cell::GhostBlock => style.ghost_cell,
    }
}

/// The colour a piece is drawn in: that of its cells.
pub fn piece_color(kind: Tetromino, style: RenderStyle) -> (c: Rgba)
    ensures
        c == spec_cell_color(spec_cell_from_piece(kind), style),
{
    cell_color(cell_from_piece(kind), style)
}

/// One channel darkened by `amount`, stopping at zero.
pub open spec fn darker(c: u8, amount: u8) -> u8 {
    if c > amount {
        (c - amount) as u8
    } else {
        0
    }
}

/// A colour with each colour channel darkened by `amount` (stopping at
/// zero) and its opacity kept.
pub fn darken(color: Rgba, amount: u8) -> (c: Rgba)
    ensures
        c == (Rgba {
            r: darker(color.r, amount),
            g: darker(color.g, amount),
            b: darker(color.b, amount),
            a: color.a,
        }),
{
    Rgba {
        r: color.r.saturating_sub(amount),
        g: color.g.saturating_sub(amount),
        b: color.b.saturating_sub(amount),
        a: color.a,
    }
}

/// The tint a textured cell is drawn with: the ghost keeps its own, every
/// other cell is drawn as the texture is.
pub fn textured_cell_tint(cell: Cell, fallback_tint: Rgba) -> (c: Rgba)
    ensures
        c == (if cell is GhostBlock {
            fallback_tint
        } else {
            white()
        }),
{
    match cell {
        Cell::GhostBlock => fallback_tint,
        _ => Rgba { r: 255, g: 255, b: 255, a: 255 },
    }
}

/// The opacity of the ghost piece for an opacity setting in percent, cut
/// to eight bits.
pub open spec fn spec_ghost_alpha(percent: u8) -> u8 {
    (percent as int * 255 / 100) as u8
}

/// The opacity of the ghost piece (see `spec_ghost_alpha`); up to 100 percent
/// it is the share of 255.
pub fn ghost_alpha(percent: u8) -> (a: u8)
    ensures
        a == spec_ghost_alpha(percent),
        percent <= 100 ==> a as int == percent as int * 255 / 100,
{
    (percent as u32 * 255 / 100) as u8
}

/// Whether a background is dark: its channels average below 128.
pub open spec fn is_dark(background: Rgba) -> bool {
    (background.r + background.g + background.b) / 3 < 128
}

/// The rounding of blocks drawn in `style`.
pub open spec fn block_radius(style: BlockStyle) -> u8 {
    match style {
        BlockStyle::Flat => 1,
        BlockStyle::Inset => 6,
    }
}

/// The rounding of blocks for a texture: the built-in textures have their
/// own, any other follows the skin's block style.
pub open spec fn texture_radius(texture: Seq<char>, skin_radius: u8) -> u8 {
    if texture == "rounded-square.png"@ {
        6
    } else if texture == "template.png"@ {
        1
    } else {
        skin_radius
    }
}

/// A colour of the skin, or the default one where there is no skin.
pub open spec fn skin_color(palette: Option<SkinPalette>, pick: spec_fn(SkinPalette) -> [u8; 4], default: Rgba) -> Rgba {
    match palette {
        Some(p) => spec_rgba(pick(p)),
        None => default,
    }
}

/// How `config` has the board drawn with the skin `palette` (if one was
/// found): the skin's colours or the default ones, the ghost in the text
/// colour at the configured opacity, grid lines lightened from the
/// background, and the theme that the background's darkness calls for.
pub open spec fn spec_render_style(config: AppConfig, palette: Option<SkinPalette>) -> RenderStyle {
    let skin_radius = match palette {
        Some(p) => block_radius(p.style),
        None => block_radius(BlockStyle::Inset),
    };
    let background = skin_color(palette, |p: SkinPalette| p.background, gray(12));
    let box_color = skin_color(palette, |p: SkinPalette| p.box_color, gray(24));
    let text_color = skin_color(palette, |p: SkinPalette| p.text, white());
    let alpha = spec_ghost_alpha(config.ghost_opacity_percent);
    RenderStyle {
        colored_ghost: config.colored_ghost,
        ghost_alpha: alpha,
        i_cell: skin_color(palette, |p: SkinPalette| p.i, opaque(0, 240, 240)),
        j_cell: skin_color(palette, |p: SkinPalette| p.j, opaque(0, 80, 255)),
        s_cell: skin_color(palette, |p: SkinPalette| p.s, opaque(0, 220, 0)),
        o_cell: skin_color(palette, |p: SkinPalette| p.o, opaque(255, 240, 0)),
        z_cell: skin_color(palette, |p: SkinPalette| p.z, opaque(255, 40, 0)),
        l_cell: skin_color(palette, |p: SkinPalette| p.l, opaque(255, 160, 0)),
        t_cell: skin_color(palette, |p: SkinPalette| p.t, opaque(180, 0, 255)),
        empty_cell: skin_color(palette, |p: SkinPalette| p.empty, gray(16)),
        gray_cell: skin_color(palette, |p: SkinPalette| p.gray, gray(80)),
        ghost_cell: Rgba { r: text_color.r, g: text_color.g, b: text_color.b, a: alpha },
        background,
        box_color,
        text_color,
        corner_radius: texture_radius(config.selected_texture@, skin_radius),
        filled_stroke: box_color,
        empty_stroke: spec_grid_stroke_color(background, config.grid_brightness),
        theme_colors: spec_theme_colors(is_dark(background)),
    }
}

impl RenderStyle {
    /// How the board is drawn under `config`, with the skin of that name
    /// among `palettes` (see `spec_render_style`).
    pub fn from_config(config: &AppConfig, palettes: &[SkinPalette]) -> (s: Self)
        ensures
            s == spec_render_style(
                *config,
                match first_named(palettes@, config.selected_skin@, 0) {
                    Some(k) => Some(palettes@[k]),
                    None => None,
                },
            ),
    {
        let palette = find_skin_palette(palettes, config.selected_skin.as_str());
        let skin_radius: u8 = match palette {
            Some(p) => match p.style {
                BlockStyle::Flat => 1,
                BlockStyle::Inset => 6,
            },
            None => 6,
        };
        let texture = str_chars(config.selected_texture.as_str());
        let rounded = str_chars("rounded-square.png");
        let template = str_chars("template.png");
        let corner_radius: u8 = if same_chars(&texture, &rounded) {
            6
        } else if same_chars(&texture, &template) {
            1
        } else {
            skin_radius
        };
        let i_cell = match palette {
            Some(p) => rgba(p.i),
            None => Rgba { r: 0, g: 240, b: 240, a: 255 },
        };
        let j_cell = match palette {
            Some(p) => rgba(p.j),
            None => Rgba { r: 0, g: 80, b: 255, a: 255 },
        };
        let s_cell = match palette {
            Some(p) => rgba(p.s),
            None => Rgba { r: 0, g: 220, b: 0, a: 255 },
        };
        let o_cell = match palette {
            Some(p) => rgba(p.o),
            None => Rgba { r: 255, g: 240, b: 0, a: 255 },
        };
        let z_cell = match palette {
            Some(p) => rgba(p.z),
            None => Rgba { r: 255, g: 40, b: 0, a: 255 },
        };
        let l_cell = match palette {
            Some(p) => rgba(p.l),
            None => Rgba { r: 255, g: 160, b: 0, a: 255 },
        };
        let t_cell = match palette {
            Some(p) => rgba(p.t),
            None => Rgba { r: 180, g: 0, b: 255, a: 255 },
        };
        let empty_cell = match palette {
            Some(p) => rgba(p.empty),
            None => Rgba { r: 16, g: 16, b: 16, a: 255 },
        };
        let gray_cell = match palette {
            Some(p) => rgba(p.gray),
            None => Rgba { r: 80, g: 80, b: 80, a: 255 },
        };
        let background = match palette {
            Some(p) => rgba(p.background),
            None => Rgba { r: 12, g: 12, b: 12, a: 255 },
        };
        let box_color = match palette {
            Some(p) => rgba(p.box_color),
            None => Rgba { r: 24, g: 24, b: 24, a: 255 },
        };
        let text_color = match palette {
            Some(p) => rgba(p.text),
            None => Rgba { r: 255, g: 255, b: 255, a: 255 },
        };
        let alpha = ghost_alpha(config.ghost_opacity_percent);
        let dark = ((background.r as u32 + background.g as u32 + background.b as u32) / 3) < 128;
        proof {
            reveal_strlit("rounded-square.png");
            reveal_strlit("template.png");
        }
        RenderStyle {
            colored_ghost: config.colored_ghost,
            ghost_alpha: alpha,
            i_cell,
            j_cell,
            s_cell,
            o_cell,
            z_cell,
            l_cell,
            t_cell,
            empty_cell,
            gray_cell,
            ghost_cell: Rgba { r: text_color.r, g: text_color.g, b: text_color.b, a: alpha },
            background,
            box_color,
            text_color,
            corner_radius,
            filled_stroke: box_color,
            empty_stroke: grid_stroke_color(background, config.grid_brightness),
            theme_colors: ThemeColors::new(dark),
        }
    }
}

/// The light or dark look of the interface.
#[derive(Debug, Clone, Copy, PartialEq, Eq, Structural)]
pub enum UiTheme {
    Light,
    Dark,
}

/// The look the theme setting asks for: light or dark as set, or the
/// system's where it follows the system (dark where the system says
/// nothing).
pub open spec fn spec_resolve_theme(mode: ThemeMode, system: Option<UiTheme>) -> UiTheme {
    match mode {
        ThemeMode::Light => UiTheme::Light,
        ThemeMode::Dark => UiTheme::Dark,
        ThemeMode::Auto => match system {
            Some(t) => t,
            None => UiTheme::Dark,
        },
    }
}

/// The look the theme setting asks for (see `spec_resolve_theme`).
pub fn resolve_theme(mode: ThemeMode, system: Option<UiTheme>) -> (t: UiTheme)
    ensures
        t == spec_resolve_theme(mode, system),
{
    match mode {
        ThemeMode::Light => UiTheme::Light,
        ThemeMode::Dark => UiTheme::Dark,
        ThemeMode::Auto => match system {
            Some(t) => t,
            None => UiTheme::Dark,
        },
    }
}

} // verus!
