use vstd::prelude::*;

use crate::game::board::{Board, bottom_aligned, spec_min};
use crate::game::game_state::GameState;
use crate::game::highlight::{auto_color_board, auto_colored_at};
use crate::game::piece::{Cell, Rotation};

verus! {

/// The cells read from a screenshot of a board: `visible_rows` rows of
/// `width` cells, top row first.
#[derive(Debug, Clone, PartialEq, Eq)]
pub struct BoardAnalysisResult {
    pub width: usize,
    pub visible_rows: usize,
    pub cells: Vec<Cell>,
}

/// Why a screenshot could not be read as a board.
#[derive(Debug, Clone, PartialEq, Eq)]
pub enum AnalysisError {
    InvalidConfig(&'static str),
    ImageTooSmall,
    InvalidImageBuffer,
}

/// Why a board read from a screenshot could not be used.
#[derive(Debug, Clone, PartialEq, Eq, Structural)]
pub enum ImportError {
    WidthMismatch { expected: usize, actual: usize },
}

/// Whether `new` is `old` with the read board in place: the board holds
/// the read rows at its bottom (gray piece shapes coloured where the game
/// colours automatically), the overlay is cleared, the piece stands in spawn
/// orientation at the spawn position, and the turn's transient state (hold
/// lock, loss, perfect clear, texts, spin, lock delay, flash) is reset.
pub open spec fn imported(old: GameState, new: GameState, analysis: BoardAnalysisResult) -> bool {
    let rows = spec_min(analysis.visible_rows as int, old.board.visible_height as int);
    let laid = bottom_aligned(
        old.board.cells@.len(),
        old.board.width as int,
        old.board.total(),
        analysis.cells@,
        rows,
        Cell::Empty,
    );
    &&& new.wf()
    &&& new.board.same_shape(&old.board)
    &&& exists|mid: Board|
        {
            &&& #[trigger] mid.same_shape(&old.board)
            &&& mid.cells@ == laid
            &&& forall|x: int, y: int|
                #![trigger new.board.at(x, y)]
                old.board.spec_in_bounds(x, y) ==> new.board.at(x, y) == if old.auto_color {
                    auto_colored_at(mid, x, y)
                } else {
                    mid.at(x, y)
                }
        }
    &&& new.highlights.all_zero()
    &&& new.current.kind == old.current.kind
    &&& new.current.x == old.board.width as int / 2 - 2
    &&& new.current.y == old.board.hidden_rows - 2
    &&& new.current.rotation == Rotation::Spawn
    &&& new.hold.swapped_this_turn == false
    &&& new.hold.piece == old.hold.piece
    &&& new.hold.infinite_hold == old.hold.infinite_hold
    &&& !new.stats.lost
    &&& !new.stats.perfect_clear
    &&& new.stats.attack_text is None
    &&& new.stats.b2b_text is None
    &&& new.stats.damage == old.stats.damage
    &&& new.stats.lines == old.stats.lines
    &&& new.stats.moves == old.stats.moves
    &&& new.stats.b2b == old.stats.b2b
    &&& new.stats.combo == old.stats.combo
    &&& !new.spin.is_t_spin
    &&& !new.spin.is_mini
    &&& new.spin.last_kick_index is None
    &&& new.lock_delay == old.lock_delay.spec_reset()
    &&& !new.clear_flash.active
    &&& new.clear_flash.lines@.len() == 0
    &&& new.clear_flash.timer_ms == 0
    &&& new.clear_flash.duration_ms == old.clear_flash.duration_ms
    &&& new.mode == old.mode
    &&& new.queue == old.queue
    &&& new.gravity == old.gravity
    &&& new.auto_color == old.auto_color
}

/// Puts a board read from a screenshot into the game. It is refused where
/// its width is not the board's.
pub fn import_board_from_analysis(game: &mut GameState, analysis: BoardAnalysisResult) -> (r: Result<
    (),
    ImportError,
>)
    requires
        old(game).wf(),
        analysis.width == old(game).board.width ==> analysis.cells@.len() == analysis.width
            * spec_min(analysis.visible_rows as int, old(game).board.visible_height as int),
    ensures
        analysis.width != old(game).board.width ==> r == Err::<(), ImportError>(
            ImportError::WidthMismatch { expected: old(game).board.width, actual: analysis.width },
        ) && *final(game) == *old(game),
        analysis.width == old(game).board.width ==> r is Ok && imported(
            *old(game),
            *final(game),
            analysis,
        ),
{
    if game.board.width != analysis.width {
        return Err(ImportError::WidthMismatch { expected: game.board.width, actual: analysis.width });
    }
    let ghost old_board = game.board;
    game.board.replace_visible_rows_bottom_aligned(&analysis.cells, analysis.visible_rows);
    let ghost laid_board = game.board;
    game.highlights.sync_to_board(&game.board);
    if game.auto_color {
        auto_color_board(&mut game.board);
    }
    game.current.x = game.board.spawn_x();
    game.current.y = game.board.spawn_y();
    game.current.rotation = Rotation::Spawn;
    game.hold.swapped_this_turn = false;
    game.stats.lost = false;
    game.stats.perfect_clear = false;
    game.stats.attack_text = None;
    game.stats.b2b_text = None;
    game.spin.is_t_spin = false;
    game.spin.is_mini = false;
    game.spin.last_kick_index = None;
    game.lock_delay.reset();
    game.clear_flash.active = false;
    game.clear_flash.lines.clear();
    game.clear_flash.timer_ms = 0;
    assert(laid_board.same_shape(&old_board));
    Ok(())
}

} // verus!
