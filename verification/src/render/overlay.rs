use vstd::prelude::*;

use crate::game::game_state::Stats;
use crate::game::text::push_str;
use crate::render::style::{RenderStyle, Rgba};

verus! {

/// A line of text shown over the board: large for the game's state, normal
/// for what the last piece scored.
#[derive(Debug, Clone, PartialEq, Eq)]
pub struct StatusLine {
    pub text: String,
    pub large: bool,
    pub color: Rgba,
}

/// Plain red.
pub open spec fn red() -> Rgba {
    Rgba { r: 255, g: 0, b: 0, a: 255 }
}

/// The lines shown over the board, top to bottom, as text, size and colour:
/// whether the game is paused or over; the attack of the last clear, or a
/// perfect clear; the back-to-back text, or that a back-to-back chain runs.
pub open spec fn status_lines(stats: Stats, paused: bool, style: RenderStyle) -> Seq<(Seq<char>, bool, Rgba)> {
    let state: Seq<(Seq<char>, bool, Rgba)> = if paused {
        seq![("PAUSED"@, true, style.text_color)]
    } else if stats.lost {
        seq![("GAME OVER"@, true, red())]
    } else {
        Seq::empty()
    };
    let attack: Seq<(Seq<char>, bool, Rgba)> = match stats.attack_text {
        Some(t) => seq![(t@, false, style.theme_colors.warning)],
        None => if stats.perfect_clear {
            seq![("PERFECT CLEAR"@, false, style.theme_colors.success)]
        } else {
            Seq::empty()
        },
    };
    let chain: Seq<(Seq<char>, bool, Rgba)> = match stats.b2b_text {
        Some(t) => seq![(t@, false, style.theme_colors.success)],
        None => if stats.b2b {
            seq![("B2B"@, false, style.theme_colors.success)]
        } else {
            Seq::empty()
        },
    };
    state + attack + chain
}

/// A line as text, size and colour.
pub open spec fn line_value(l: StatusLine) -> (Seq<char>, bool, Rgba) {
    (l.text@, l.large, l.color)
}

fn line(text: &str, large: bool, color: Rgba) -> (l: StatusLine)
    ensures
        line_value(l) == (text@, large, color),
{
    let mut s = String::new();
    push_str(&mut s, text);
    StatusLine { text: s, large, color }
}

/// The lines shown over the board (see `status_lines`).
pub fn overlay_status_lines(stats: &Stats, paused: bool, style: &RenderStyle) -> (r: Vec<StatusLine>)
    ensures
        r@.map_values(|l: StatusLine| line_value(l)) == status_lines(*stats, paused, *style),
{
    let mut lines: Vec<StatusLine> = Vec::new();
    let ghost mut want: Seq<(Seq<char>, bool, Rgba)> = Seq::empty();
    if paused {
        lines.push(line("PAUSED", true, style.text_color));
        proof {
            want = seq![("PAUSED"@, true, style.text_color)];
        }
    } else if stats.lost {
        lines.push(line("GAME OVER", true, Rgba { r: 255, g: 0, b: 0, a: 255 }));
        proof {
            want = seq![("GAME OVER"@, true, red())];
        }
    }
    assert(lines@.map_values(|l: StatusLine| line_value(l)) =~= want);
    match &stats.attack_text {
        Some(t) => {
            lines.push(StatusLine { text: t.clone(), large: false, color: style.theme_colors.warning });
            proof {
                want = want + seq![(t@, false, style.theme_colors.warning)];
            }
        },
        None => {
            if stats.perfect_clear {
                lines.push(line("PERFECT CLEAR", false, style.theme_colors.success));
                proof {
                    want = want + seq![("PERFECT CLEAR"@, false, style.theme_colors.success)];
                }
            }
        },
    }
    assert(lines@.map_values(|l: StatusLine| line_value(l)) =~= want);
    match &stats.b2b_text {
        Some(t) => {
            lines.push(StatusLine { text: t.clone(), large: false, color: style.theme_colors.success });
            proof {
                want = want + seq![(t@, false, style.theme_colors.success)];
            }
        },
        None => {
            if stats.b2b {
                lines.push(line("B2B", false, style.theme_colors.success));
                proof {
                    want = want + seq![("B2B"@, false, style.theme_colors.success)];
                }
            }
        },
    }
    assert(lines@.map_values(|l: StatusLine| line_value(l)) =~= want);
    assert(want =~= status_lines(*stats, paused, *style));
    lines
}

} // verus!
