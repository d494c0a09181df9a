use vstd::prelude::*;

use crate::config::settings::{AppConfig, PersistedBagMode, at_most_hundred};
use crate::config::static_queue::{to_upper_ascii, upper_ascii};
use crate::control::actions::AppAction;
use crate::game::board::Board;
use crate::game::game_loop::{
    GameLoop, generator_for, opt_pieces, records_turn_start, snapshot_pushed, spawned,
};
use crate::game::grid::grid_index;
use crate::game::game_state::{BagMode, GameMode, GameState, copy_vec};
use crate::game::history::History;
use crate::game::highlight::{HighlightBoard, auto_color_board, auto_colored_at};
use crate::game::piece::{
    Cell, Tetromino, piece_from_name, piece_name, spec_piece_from_name, spec_piece_name,
};
use crate::game::text::{is_white, is_white_char, str_chars};

verus! {

/// The bag mode that the saved setting names.
pub open spec fn spec_bag_mode(p: PersistedBagMode) -> BagMode {
    match p {
        PersistedBagMode::SevenBag => BagMode::SevenBag,
        PersistedBagMode::FourteenBag => BagMode::FourteenBag,
        PersistedBagMode::Random => BagMode::Random,
    }
}

/// The bag mode that `config` asks for.
pub fn bag_mode_from_config(config: &AppConfig) -> (m: BagMode)
    ensures
        m == spec_bag_mode(config.bag_mode),
{
    match config.bag_mode {
        PersistedBagMode::SevenBag => BagMode::SevenBag,
        PersistedBagMode::FourteenBag => BagMode::FourteenBag,
        PersistedBagMode::Random => BagMode::Random,
    }
}

/// `l` with the settings that take effect at once (timings, ghost, hold
/// and colouring options) taken from `c`.
pub open spec fn runtime_applied(l: GameLoop, c: AppConfig) -> GameLoop {
    let g = l.game;
    GameLoop {
        game: crate::game::game_state::GameState {
            gravity: crate::game::game_state::GravityState {
                das_ms: c.das_ms,
                arr_ms: c.arr_ms,
                sdd_ms: c.sdd_ms,
                sds_ms: c.sds_ms,
                das_cancel: c.das_cancel,
                ..g.gravity
            },
            ghost_piece: c.show_ghost,
            hold: crate::game::game_state::HoldState { infinite_hold: c.infinite_hold, ..g.hold },
            auto_color: c.auto_color,
            auto_lock_on_ground: c.auto_lock_on_ground,
            mirror_queue_with_field: c.mirror_queue,
            highlight_clear: c.highlight_clear,
            ..g
        },
        ..l
    }
}

/// Whether a change of settings from `l` to `c` needs a new board: its
/// size or its bag mode differs.
pub open spec fn needs_rebuild(l: GameLoop, c: AppConfig) -> bool {
    ||| l.game.board.width != c.board_width
    ||| l.game.board.visible_height != c.board_visible_height
    ||| l.game.board.hidden_rows != c.board_hidden_rows
    ||| l.game.queue.mode != spec_bag_mode(c.bag_mode)
}

/// Whether a board of this size can be built for `mode`: the sizes fit the
/// machine's integers and the mode has the room it needs.
pub open spec fn board_buildable(mode: GameMode, width: usize, visible: usize, hidden: usize) -> bool {
    &&& visible + hidden + 4 <= i32::MAX
    &&& width <= i32::MAX
    &&& width * (visible + hidden) <= usize::MAX
    &&& mode == GameMode::Cheese ==> width > 0 || visible + hidden == 0
    &&& mode == GameMode::FourWide ==> width >= 4 && visible + hidden >= 2
}

/// `l` is a fresh game for `mode` with the board and bag of `c`, seeded by
/// `seed` unless the mode picks its own, and with an empty history.
pub open spec fn fresh_for_config(
    l: GameLoop,
    c: AppConfig,
    mode: GameMode,
    seed: u16,
    queue: Option<Seq<Tetromino>>,
) -> bool {
    &&& l.wf()
    &&& l.game.board.width == c.board_width
    &&& l.game.board.visible_height == c.board_visible_height
    &&& l.game.board.hidden_rows == c.board_hidden_rows
    &&& l.game.mode == mode
    &&& l.game.queue.mode == spec_bag_mode(c.bag_mode)
    &&& generator_for(l.queue_generator, spec_bag_mode(c.bag_mode), l.game.queue.seed, c.static_bag, queue)
    &&& mode != GameMode::PerfectClear ==> l.game.queue.seed == seed
    &&& l.static_bag_enabled == c.static_bag
    &&& l.gravity_accum == 0
    &&& l.pending_sounds@.len() == 0
    &&& l.history.snapshots@.len() == 0
    &&& l.history.capacity == 100
}

/// What applying the settings `c` does to the game `l0`, giving `l1`: where
/// the board or bag changes, a fresh game of the same mode and seed is built
/// and its first piece spawned; then the settings that take effect at once
/// are applied.
pub open spec fn config_applied(
    l0: GameLoop,
    l1: GameLoop,
    c: AppConfig,
    queue: Option<Seq<Tetromino>>,
) -> bool {
    if needs_rebuild(l0, c) {
        exists|fresh: GameLoop, started: GameLoop|
            #![trigger spawned(fresh, started)]
            fresh_for_config(fresh, c, l0.game.mode, l0.game.queue.seed, queue) && spawned(
                fresh,
                started,
            ) && l1 == runtime_applied(started, c)
    } else {
        l1 == runtime_applied(l0, c)
    }
}

/// Settings once applied are in force: applying them again needs no new
/// board and changes nothing.
pub proof fn law_config_apply_settles(
    l0: GameLoop,
    l1: GameLoop,
    c: AppConfig,
    queue: Option<Seq<Tetromino>>,
)
    requires
        config_applied(l0, l1, c, queue),
    ensures
        !needs_rebuild(l1, c),
        runtime_applied(l1, c) == l1,
{
    if needs_rebuild(l0, c) {
        let (fresh, started) = choose|fresh: GameLoop, started: GameLoop|
            #![trigger spawned(fresh, started)]
            fresh_for_config(fresh, c, l0.game.mode, l0.game.queue.seed, queue) && spawned(
                fresh,
                started,
            ) && l1 == runtime_applied(started, c);
        assert(started.game.board == fresh.game.board);
        assert(started.game.queue.mode == fresh.game.queue.mode);
    }
}

/// Applies the settings that take effect at once.
pub fn apply_runtime_config(game_loop: &mut GameLoop, config: &AppConfig)
    ensures
        *final(game_loop) == runtime_applied(*old(game_loop), *config),
{
    game_loop.game.gravity.das_ms = config.das_ms;
    game_loop.game.gravity.arr_ms = config.arr_ms;
    game_loop.game.gravity.sdd_ms = config.sdd_ms;
    game_loop.game.gravity.sds_ms = config.sds_ms;
    game_loop.game.gravity.das_cancel = config.das_cancel;
    game_loop.game.ghost_piece = config.show_ghost;
    game_loop.game.hold.infinite_hold = config.infinite_hold;
    game_loop.game.auto_color = config.auto_color;
    game_loop.game.auto_lock_on_ground = config.auto_lock_on_ground;
    game_loop.game.mirror_queue_with_field = config.mirror_queue;
    game_loop.game.highlight_clear = config.highlight_clear;
}

/// Applies `config` to the running game and says whether the board had to
/// be rebuilt (see `config_applied`). `static_queue` is the fixed opening
/// sequence a rebuilt game uses when the static bag is on.
pub fn apply_config_to_state(
    game_loop: &mut GameLoop,
    config: &AppConfig,
    static_queue: Option<Vec<Tetromino>>,
) -> (rebuilt: bool)
    requires
        old(game_loop).wf(),
        needs_rebuild(*old(game_loop), *config) ==> board_buildable(
            old(game_loop).game.mode,
            config.board_width,
            config.board_visible_height,
            config.board_hidden_rows,
        ),
    ensures
        final(game_loop).wf(),
        rebuilt == needs_rebuild(*old(game_loop), *config),
        config_applied(*old(game_loop), *final(game_loop), *config, opt_pieces(static_queue)),
{
    let desired_bag_mode = bag_mode_from_config(config);
    let rebuild = game_loop.game.board.width != config.board_width
        || game_loop.game.board.visible_height != config.board_visible_height
        || game_loop.game.board.hidden_rows != config.board_hidden_rows
        || game_loop.game.queue.mode != desired_bag_mode;
    if rebuild {
        let mode = game_loop.game.mode;
        let seed = game_loop.game.queue.seed;
        let ghost queue = opt_pieces(static_queue);
        let mut fresh = GameLoop::new_with_board(
            mode,
            desired_bag_mode,
            seed,
            config.infinite_hold,
            config.static_bag,
            config.board_width,
            config.board_visible_height,
            config.board_hidden_rows,
            static_queue,
        );
        let ghost built = fresh;
        assert(fresh_for_config(built, *config, mode, seed, queue));
        fresh.spawn_next();
        let ghost started = fresh;
        assert(spawned(built, started));
        *game_loop = fresh;
    }
    apply_runtime_config(game_loop, config);
    rebuild
}

/// The pieces that `text` names, one letter each in either case, white
/// space skipped; `None` where a character names no piece.
pub open spec fn named_pieces(text: Seq<char>) -> Option<Seq<Tetromino>>
    decreases text.len(),
{
    if text.len() == 0 {
        Some(Seq::empty())
    } else {
        match named_pieces(text.drop_last()) {
            None => None,
            Some(pieces) => {
                let c = text.last();
                if is_white(c) {
                    Some(pieces)
                } else {
                    match spec_piece_from_name(upper_ascii(c)) {
                        Some(kind) => Some(pieces.push(kind)),
                        None => None,
                    }
                }
            },
        }
    }
}

/// The queue that an edit of the bag text gives: the pieces it names, where
/// every character is a piece letter or white space and there is at least
/// one piece.
pub open spec fn spec_bag_edit(text: Seq<char>) -> Option<Seq<Tetromino>> {
    match named_pieces(text) {
        Some(pieces) => if pieces.len() > 0 {
            Some(pieces)
        } else {
            None
        },
        None => None,
    }
}

/// Reads the text of the bag editor (see `spec_bag_edit`).
pub fn parse_bag_edit(text: &str) -> (r: Option<Vec<Tetromino>>)
    ensures
        match r {
            Some(v) => spec_bag_edit(text@) == Some(v@),
            None => spec_bag_edit(text@) is None,
        },
{
    let chars = str_chars(text);
    let mut pieces: Vec<Tetromino> = Vec::new();
    let mut i: usize = 0;
    while i < chars.len()
        invariant
            i <= chars@.len(),
            chars@ == text@,
            named_pieces(text@.subrange(0, i as int)) == Some(pieces@),
        decreases chars@.len() - i,
    {
        let c = chars[i];
        assert(text@.subrange(0, i + 1).drop_last() =~= text@.subrange(0, i as int));
        if !is_white_char(c) {
            match piece_from_name(to_upper_ascii(c)) {
                Some(kind) => pieces.push(kind),
                None => {
                    proof {
                        lemma_named_pieces_stays_invalid(text@, i + 1);
                    }
                    return None;
                },
            }
        }
        i += 1;
    }
    assert(text@.subrange(0, chars@.len() as int) =~= text@);
    if pieces.len() == 0 {
        None
    } else {
        Some(pieces)
    }
}

/// Once a prefix of the text names no piece, the whole text names none.
proof fn lemma_named_pieces_stays_invalid(text: Seq<char>, n: int)
    requires
        0 <= n <= text.len(),
        named_pieces(text.subrange(0, n)) is None,
    ensures
        named_pieces(text) is None,
    decreases text.len() - n,
{
    if n < text.len() {
        assert(text.subrange(0, n + 1).drop_last() =~= text.subrange(0, n));
        lemma_named_pieces_stays_invalid(text, n + 1);
    } else {
        assert(text.subrange(0, n) =~= text);
    }
}

/// The piece that an edit of the hold text names: its first character, in
/// either case.
pub open spec fn spec_hold_edit(text: Seq<char>) -> Option<Tetromino> {
    if text.len() > 0 {
        spec_piece_from_name(upper_ascii(text[0]))
    } else {
        None
    }
}

/// Reads the text of the hold editor (see `spec_hold_edit`).
pub fn parse_hold_edit(text: &str) -> (r: Option<Tetromino>)
    ensures
        r == spec_hold_edit(text@),
{
    let chars = str_chars(text);
    if chars.len() > 0 {
        piece_from_name(to_upper_ascii(chars[0]))
    } else {
        None
    }
}

/// The letters of a queue, one per piece.
pub fn queue_text(pieces: &Vec<Tetromino>) -> (r: String)
    ensures
        r@ == pieces@.map_values(|k: Tetromino| spec_piece_name(k)),
{
    let mut r = String::new();
    let mut i: usize = 0;
    while i < pieces.len()
        invariant
            i <= pieces@.len(),
            r@ == pieces@.subrange(0, i as int).map_values(|k: Tetromino| spec_piece_name(k)),
        decreases pieces@.len() - i,
    {
        r.push(piece_name(pieces[i]));
        assert(pieces@.subrange(0, i + 1).map_values(|k: Tetromino| spec_piece_name(k))
            =~= pieces@.subrange(0, i as int).map_values(|k: Tetromino| spec_piece_name(k)).push(
            spec_piece_name(pieces@[i as int]),
        ));
        i += 1;
    }
    assert(pieces@.subrange(0, pieces@.len() as int) =~= pieces@);
    r
}

/// What an edit asks of the interface once the game has been changed.
#[derive(Debug, Clone, PartialEq, Eq)]
pub enum EditEffect {
    /// The action is not an edit.
    NotAnEdit,
    /// The game was changed (or left as it is) and nothing else is asked.
    Done,
    /// The paint colour becomes this cell.
    EditColor(Cell),
    /// The highlight painting mode is switched.
    HighlightModeToggled,
    /// The bag editor opens with this text.
    BagEditOpened(String),
    /// The bag editor closes; `true` where the queue was replaced.
    BagEditClosed(bool),
    /// The hold editor opens.
    HoldEditOpened,
    /// The hold editor closes; `true` where the held piece was replaced.
    HoldEditClosed(bool),
}

/// `mid` is `b0` with `cell` set at `(x, y)`, where that lies on the board.
pub open spec fn paint_step(b0: Board, mid: Board, x: int, y: int, cell: Cell) -> bool {
    &&& mid.same_shape(&b0)
    &&& mid.cells@ == if b0.spec_in_bounds(x, y) {
        b0.cells@.update(grid_index(b0.width as int, x, y), cell)
    } else {
        b0.cells@
    }
}

/// `b1` is `mid` coloured by its shapes (see `auto_colored_at`).
pub open spec fn colored_from(mid: Board, b1: Board) -> bool {
    &&& b1.same_shape(&mid)
    &&& forall|i: int, j: int|
        #![trigger b1.at(i, j)]
        mid.spec_in_bounds(i, j) ==> b1.at(i, j) == auto_colored_at(mid, i, j)
}

/// Painting `cell` at `(x, y)` of `b0` gave `b1`: the cell is set where it
/// lies on the board, and the board is then coloured by its shapes where
/// automatic colouring is on and a cell was set.
pub open spec fn cell_painted(b0: Board, b1: Board, x: int, y: int, cell: Cell, auto: bool) -> bool {
    exists|mid: Board|
        #![trigger paint_step(b0, mid, x, y, cell)]
        paint_step(b0, mid, x, y, cell) && if b0.spec_in_bounds(x, y) && auto {
            colored_from(mid, b1)
        } else {
            b1.same_shape(&mid) && b1.cells@ == mid.cells@
        }
}

/// `h1` is `h0` with `value` set at `(x, y)` where that lies on `board`.
pub open spec fn highlight_painted(
    board: Board,
    h0: HighlightBoard,
    h1: HighlightBoard,
    x: int,
    y: int,
    value: u8,
) -> bool {
    &&& h1.width == h0.width
    &&& h1.total_height == h0.total_height
    &&& h1.cells@ == if board.spec_in_bounds(x, y) {
        h0.cells@.update(grid_index(h0.width as int, x, y), value)
    } else {
        h0.cells@
    }
}

/// `l1` is `l0` with only the board, the overlay and the turn's starting
/// snapshot changed.
pub open spec fn only_field_changed(l0: GameLoop, l1: GameLoop) -> bool {
    l1 == (GameLoop {
        game: crate::game::game_state::GameState {
            board: l1.game.board,
            highlights: l1.game.highlights,
            ..l0.game
        },
        turn_start_snapshot: l1.turn_start_snapshot,
        ..l0
    })
}

/// What an edit action does to the game (`l0` to `l1`) and what it asks of
/// the interface (`e`). Actions that are not edits change nothing.
pub open spec fn edit_applied(l0: GameLoop, l1: GameLoop, action: AppAction, e: EditEffect) -> bool {
    match action {
        AppAction::SetEditColor(cell) => l1 == l0 && e == EditEffect::EditColor(cell),
        AppAction::BeginBrushStroke => {
            &&& snapshot_pushed(l0, l1)
            &&& l1.history.capacity == l0.history.capacity
            &&& e == EditEffect::Done
        },
        AppAction::ClearBoard => {
            &&& only_field_changed(l0, l1)
            &&& l1.turn_start_snapshot == l0.turn_start_snapshot
            &&& l1.game.board.same_shape(&l0.game.board)
            &&& l1.game.board.all_empty()
            &&& l1.game.highlights.width == l0.game.highlights.width
            &&& l1.game.highlights.total_height == l0.game.highlights.total_height
            &&& l1.game.highlights.all_zero()
            &&& e == EditEffect::Done
        },
        AppAction::ToggleHighlightMode => l1 == l0 && e == EditEffect::HighlightModeToggled,
        AppAction::ClearHighlight => {
            &&& only_field_changed(l0, l1)
            &&& l1.turn_start_snapshot == l0.turn_start_snapshot
            &&& l1.game.board == l0.game.board
            &&& l1.game.highlights.width == l0.game.highlights.width
            &&& l1.game.highlights.total_height == l0.game.highlights.total_height
            &&& l1.game.highlights.all_zero()
            &&& e == EditEffect::Done
        },
        AppAction::EditCell(x, y, cell) => {
            &&& only_field_changed(l0, l1)
            &&& l1.game.highlights == l0.game.highlights
            &&& cell_painted(l0.game.board, l1.game.board, x as int, y as int, cell, l0.game.auto_color)
            &&& records_turn_start(l1)
            &&& e == EditEffect::Done
        },
        AppAction::EditHighlightCell(x, y, value) => {
            &&& only_field_changed(l0, l1)
            &&& l1.game.board == l0.game.board
            &&& highlight_painted(
                l0.game.board,
                l0.game.highlights,
                l1.game.highlights,
                x as int,
                y as int,
                value,
            )
            &&& records_turn_start(l1)
            &&& e == EditEffect::Done
        },
        AppAction::StartBagEdit => {
            &&& l1 == l0
            &&& e matches EditEffect::BagEditOpened(text) && text@ == l0.game.queue.visible@.map_values(
                |k: Tetromino| spec_piece_name(k),
            )
        },
        AppAction::ApplyBagEdit(text) => match spec_bag_edit(text@) {
            Some(pieces) => {
                &&& l1 == (GameLoop {
                    game: crate::game::game_state::GameState {
                        queue: crate::game::game_state::QueueState {
                            visible: l1.game.queue.visible,
                            ..l0.game.queue
                        },
                        ..l0.game
                    },
                    ..l0
                })
                &&& l1.game.queue.visible@ == pieces
                &&& e == EditEffect::BagEditClosed(true)
            },
            None => l1 == l0 && e == EditEffect::BagEditClosed(false),
        },
        AppAction::CancelBagEdit => l1 == l0 && e == EditEffect::BagEditClosed(false),
        AppAction::StartHoldEdit(_) => l1 == l0 && e == EditEffect::HoldEditOpened,
        AppAction::ApplyHoldEdit(text) => match spec_hold_edit(text@) {
            Some(kind) => {
                &&& l1 == (GameLoop {
                    game: crate::game::game_state::GameState {
                        hold: crate::game::game_state::HoldState { piece: Some(kind), ..l0.game.hold },
                        ..l0.game
                    },
                    ..l0
                })
                &&& e == EditEffect::HoldEditClosed(true)
            },
            None => l1 == l0 && e == EditEffect::HoldEditClosed(false),
        },
        AppAction::CancelHoldEdit => l1 == l0 && e == EditEffect::HoldEditClosed(false),
        _ => l1 == l0 && e == EditEffect::NotAnEdit,
    }
}

/// Paints `cell` at `(x, y)` where that lies on the board, colours the
/// board by its shapes where automatic colouring is on, and records the
/// turn's starting snapshot anew.
fn edit_cell(game_loop: &mut GameLoop, x: i32, y: i32, cell: Cell)
    requires
        old(game_loop).wf(),
    ensures
        final(game_loop).wf(),
        only_field_changed(*old(game_loop), *final(game_loop)),
        final(game_loop).game.highlights == old(game_loop).game.highlights,
        cell_painted(
            old(game_loop).game.board,
            final(game_loop).game.board,
            x as int,
            y as int,
            cell,
            old(game_loop).game.auto_color,
        ),
        records_turn_start(*final(game_loop)),
{
    let ghost b0 = game_loop.game.board;
    let ghost mut mid = b0;
    if game_loop.game.board.in_bounds(x, y) {
        game_loop.game.board.set(x as usize, y as usize, cell);
        proof {
            mid = game_loop.game.board;
        }
        if game_loop.game.auto_color {
            auto_color_board(&mut game_loop.game.board);
        }
    }
    assert(paint_step(b0, mid, x as int, y as int, cell));
    game_loop.update_turn_start_snapshot();
}

/// Sets the overlay at `(x, y)` where that lies on the board, and records
/// the turn's starting snapshot anew.
fn edit_highlight_cell(game_loop: &mut GameLoop, x: i32, y: i32, value: u8)
    requires
        old(game_loop).wf(),
    ensures
        final(game_loop).wf(),
        only_field_changed(*old(game_loop), *final(game_loop)),
        final(game_loop).game.board == old(game_loop).game.board,
        highlight_painted(
            old(game_loop).game.board,
            old(game_loop).game.highlights,
            final(game_loop).game.highlights,
            x as int,
            y as int,
            value,
        ),
        records_turn_start(*final(game_loop)),
{
    if game_loop.game.board.in_bounds(x, y) {
        game_loop.game.highlights.set(x as usize, y as usize, value);
    }
    game_loop.update_turn_start_snapshot();
}

/// Carries out an edit action of the board editor on the game and says what
/// the interface is to do next: see `edit_applied`.
pub fn apply_edit_action(game_loop: &mut GameLoop, action: AppAction) -> (e: EditEffect)
    requires
        old(game_loop).wf(),
    ensures
        final(game_loop).wf(),
        edit_applied(*old(game_loop), *final(game_loop), action, e),
{
    match action {
        AppAction::SetEditColor(cell) => EditEffect::EditColor(cell),
        AppAction::BeginBrushStroke => {
            game_loop.push_snapshot();
            EditEffect::Done
        },
        AppAction::ClearBoard => {
            game_loop.game.board.clear_all();
            game_loop.game.highlights.clear_all();
            EditEffect::Done
        },
        AppAction::ToggleHighlightMode => EditEffect::HighlightModeToggled,
        AppAction::ClearHighlight => {
            game_loop.game.highlights.clear_all();
            EditEffect::Done
        },
        AppAction::EditCell(x, y, cell) => {
            edit_cell(game_loop, x, y, cell);
            EditEffect::Done
        },
        AppAction::EditHighlightCell(x, y, value) => {
            edit_highlight_cell(game_loop, x, y, value);
            EditEffect::Done
        },
        AppAction::StartBagEdit => EditEffect::BagEditOpened(queue_text(&game_loop.game.queue.visible)),
        AppAction::ApplyBagEdit(text) => match parse_bag_edit(&text) {
            Some(pieces) => {
                game_loop.game.queue.visible = pieces;
                EditEffect::BagEditClosed(true)
            },
            None => EditEffect::BagEditClosed(false),
        },
        AppAction::CancelBagEdit => EditEffect::BagEditClosed(false),
        AppAction::StartHoldEdit(_) => EditEffect::HoldEditOpened,
        AppAction::ApplyHoldEdit(text) => match parse_hold_edit(&text) {
            Some(kind) => {
                game_loop.game.hold.piece = Some(kind);
                EditEffect::HoldEditClosed(true)
            },
            None => EditEffect::HoldEditClosed(false),
        },
        AppAction::CancelHoldEdit => EditEffect::HoldEditClosed(false),
        _ => EditEffect::NotAnEdit,
    }
}

/// Whether the settings `c` can be applied to `l`: where the board has to
/// be rebuilt, it can be built for the game's mode.
pub open spec fn config_applicable(l: GameLoop, c: AppConfig) -> bool {
    needs_rebuild(l, c) ==> board_buildable(
        l.game.mode,
        c.board_width,
        c.board_visible_height,
        c.board_hidden_rows,
    )
}

/// Tells whether the settings `config` can be applied to the game (see
/// `config_applicable`).
pub fn config_applicable_to(game_loop: &GameLoop, config: &AppConfig) -> (r: bool)
    ensures
        r == config_applicable(*game_loop, *config),
{
    let bag_mode = bag_mode_from_config(config);
    let rebuild = game_loop.game.board.width != config.board_width
        || game_loop.game.board.visible_height != config.board_visible_height
        || game_loop.game.board.hidden_rows != config.board_hidden_rows
        || game_loop.game.queue.mode != bag_mode;
    if !rebuild {
        return true;
    }
    let width = config.board_width;
    let visible = config.board_visible_height;
    let hidden = config.board_hidden_rows;
    if visible > 0x7fff_ffff || hidden > 0x7fff_ffff || width > 0x7fff_ffff {
        return false;
    }
    if (visible as u64) + (hidden as u64) + 4 > 0x7fff_ffff {
        return false;
    }
    let total = visible + hidden;
    if width.checked_mul(total).is_none() {
        return false;
    }
    let mode = game_loop.game.mode;
    let cheese_ok = mode != GameMode::Cheese || width > 0 || total == 0;
    let four_wide_ok = mode != GameMode::FourWide || (width >= 4 && total >= 2);
    cheese_ok && four_wide_ok
}

/// `a` is a copy of `b`.
pub open spec fn copied_config(a: AppConfig, b: AppConfig) -> bool {
    &&& a == AppConfig {
        bindings: crate::config::settings::KeyBindings {
            hard_drop: a.bindings.hard_drop,
            ..b.bindings
        },
        ..b
    }
    &&& a.bindings.hard_drop@ == b.bindings.hard_drop@
}

/// A copy of the settings.
pub fn duplicate_config(c: &AppConfig) -> (r: AppConfig)
    ensures
        copied_config(r, *c),
{
    AppConfig {
        selected_skin: c.selected_skin.clone(),
        selected_texture: c.selected_texture.clone(),
        bindings: crate::config::settings::KeyBindings {
            hard_drop: copy_vec(&c.bindings.hard_drop),
            ..c.bindings
        },
        ..*c
    }
}

/// What a change of settings asks of the interface once it is made.
#[derive(Debug, Clone, Copy, PartialEq, Eq, Structural)]
pub enum SettingsEffect {
    /// The action is not a change of settings.
    NotASetting,
    /// The settings changed and are to be saved.
    Save,
    /// The volume changed to this percentage; the settings are to be saved.
    SaveVolume(u8),
    /// A skin was picked; the settings are to be saved.
    SkinSelected,
    /// A texture was picked; the settings are to be saved.
    TextureSelected,
    /// The pending settings took effect: the volume is to be set and the
    /// settings saved; `true` where the board was rebuilt.
    Applied(bool),
    /// There were no pending settings to apply.
    NothingPending,
    /// The pending settings were dropped.
    Cancelled,
}

/// What turning one of the game's switches on or off does to the settings
/// (`c0` to `c1`) and the game (`l0` to `l1`).
pub open spec fn switch_applied(c0: AppConfig, c1: AppConfig, l0: GameLoop, l1: GameLoop, action: AppAction) -> bool {
    match action {
        AppAction::ToggleGhost(on) => {
            &&& c1 == AppConfig { show_ghost: on, ..c0 }
            &&& l1 == GameLoop {
                game: crate::game::game_state::GameState { ghost_piece: on, ..l0.game },
                ..l0
            }
        },
        AppAction::ToggleAutoColor(on) => {
            &&& c1 == AppConfig { auto_color: on, ..c0 }
            &&& l1 == GameLoop {
                game: crate::game::game_state::GameState { auto_color: on, ..l0.game },
                ..l0
            }
        },
        AppAction::ToggleAutoLockOnGround(on) => {
            &&& c1 == AppConfig { auto_lock_on_ground: on, ..c0 }
            &&& l1 == GameLoop {
                game: crate::game::game_state::GameState { auto_lock_on_ground: on, ..l0.game },
                ..l0
            }
        },
        _ => false,
    }
}

/// What a change of settings does to the saved settings (`c0` to `c1`), the
/// settings still waiting to be applied (`p0` to `p1`) and the game (`l0` to
/// `l1`), and what it asks of the interface (`e`). `queue` is the fixed
/// opening sequence a rebuilt game uses.
pub open spec fn settings_applied(
    c0: AppConfig,
    c1: AppConfig,
    p0: Option<AppConfig>,
    p1: Option<AppConfig>,
    l0: GameLoop,
    l1: GameLoop,
    queue: Option<Seq<Tetromino>>,
    action: AppAction,
    e: SettingsEffect,
) -> bool {
    match action {
        AppAction::ToggleGhost(_) | AppAction::ToggleAutoColor(_) | AppAction::ToggleAutoLockOnGround(
            _,
        ) => switch_applied(c0, c1, l0, l1, action) && p1 == p0 && e == SettingsEffect::Save,
        AppAction::SetVolume(v) => {
            &&& c1 == AppConfig { volume_percent: at_most_hundred(v), ..c0 }
            &&& l1 == l0
            &&& p1 == p0
            &&& e == SettingsEffect::SaveVolume(at_most_hundred(v))
        },
        AppAction::SelectSkin(name) => {
            &&& c1 == AppConfig { selected_skin: name, ..c0 }
            &&& l1 == l0
            &&& p1 == p0
            &&& e == SettingsEffect::SkinSelected
        },
        AppAction::SelectTexture(name) => {
            &&& c1 == AppConfig { selected_texture: name, ..c0 }
            &&& l1 == l0
            &&& p1 == p0
            &&& e == SettingsEffect::TextureSelected
        },
        AppAction::ApplySettings => pending_settings_applied(c0, c1, p0, p1, l0, l1, queue, true, e),
        AppAction::ConfirmSettings => pending_settings_applied(c0, c1, p0, p1, l0, l1, queue, false, e),
        AppAction::CancelSettings => c1 == c0 && l1 == l0 && p1 is None && e
            == SettingsEffect::Cancelled,
        _ => c1 == c0 && l1 == l0 && p1 == p0 && e == SettingsEffect::NotASetting,
    }
}

/// Whether the pending settings, if `action` applies them, can be applied
/// to `l` (see `config_applicable`).
pub open spec fn pending_applicable(l: GameLoop, pending: Option<AppConfig>, action: AppAction) -> bool {
    (action is ApplySettings || action is ConfirmSettings) && pending is Some ==> config_applicable(
        l,
        pending->0,
    )
}

/// What applying the pending settings does; `keep` says whether they stay
/// pending afterwards.
pub open spec fn pending_settings_applied(
    c0: AppConfig,
    c1: AppConfig,
    p0: Option<AppConfig>,
    p1: Option<AppConfig>,
    l0: GameLoop,
    l1: GameLoop,
    queue: Option<Seq<Tetromino>>,
    keep: bool,
    e: SettingsEffect,
) -> bool {
    &&& keep ==> p1 == p0
    &&& !keep ==> p1 is None
    &&& match p0 {
        Some(p) => {
            &&& copied_config(c1, p)
            &&& config_applied(l0, l1, p, queue)
            &&& e == SettingsEffect::Applied(needs_rebuild(l0, p))
        },
        None => c1 == c0 && l1 == l0 && e == SettingsEffect::NothingPending,
    }
}

/// Applies the pending settings, if any, to the saved settings and the game.
fn apply_pending_settings(
    config: &mut AppConfig,
    pending: &mut Option<AppConfig>,
    game_loop: &mut GameLoop,
    static_queue: Option<Vec<Tetromino>>,
    keep: bool,
) -> (e: SettingsEffect)
    requires
        old(game_loop).wf(),
        pending_applicable(*old(game_loop), *old(pending), AppAction::ApplySettings),
    ensures
        final(game_loop).wf(),
        pending_settings_applied(
            *old(config),
            *final(config),
            *old(pending),
            *final(pending),
            *old(game_loop),
            *final(game_loop),
            opt_pieces(static_queue),
            keep,
            e,
        ),
{
    match pending.take() {
        Some(p) => {
            *config = duplicate_config(&p);
            let rebuilt = apply_config_to_state(game_loop, &p, static_queue);
            if keep {
                *pending = Some(p);
            }
            SettingsEffect::Applied(rebuilt)
        },
        None => SettingsEffect::NothingPending,
    }
}

/// Turns one of the game's switches (ghost, colouring, ground lock) on or
/// off, in the settings and in the game.
/// Turns the ghost piece on or off, in the settings and in the game.
fn set_ghost(config: &mut AppConfig, game_loop: &mut GameLoop, on: bool)
    requires
        old(game_loop).wf(),
    ensures
        final(game_loop).wf(),
        switch_applied(*old(config), *final(config), *old(game_loop), *final(game_loop), AppAction::ToggleGhost(on)),
{
    config.show_ghost = on;
    game_loop.game.ghost_piece = on;
}

/// Turns automatic colouring on or off, in the settings and in the game.
fn set_auto_color(config: &mut AppConfig, game_loop: &mut GameLoop, on: bool)
    requires
        old(game_loop).wf(),
    ensures
        final(game_loop).wf(),
        switch_applied(*old(config), *final(config), *old(game_loop), *final(game_loop), AppAction::ToggleAutoColor(on)),
{
    config.auto_color = on;
    game_loop.game.auto_color = on;
}

/// Turns locking on the ground on or off, in the settings and in the game.
fn set_auto_lock(config: &mut AppConfig, game_loop: &mut GameLoop, on: bool)
    requires
        old(game_loop).wf(),
    ensures
        final(game_loop).wf(),
        switch_applied(
            *old(config),
            *final(config),
            *old(game_loop),
            *final(game_loop),
            AppAction::ToggleAutoLockOnGround(on),
        ),
{
    config.auto_lock_on_ground = on;
    game_loop.game.auto_lock_on_ground = on;
}

/// Carries out a change of settings: see `settings_applied`. Saving, the
/// volume of the sound output and the status line are left to the caller,
/// as the result says.
pub fn apply_settings_action(
    config: &mut AppConfig,
    pending: &mut Option<AppConfig>,
    game_loop: &mut GameLoop,
    static_queue: Option<Vec<Tetromino>>,
    action: AppAction,
) -> (e: SettingsEffect)
    requires
        old(game_loop).wf(),
        pending_applicable(*old(game_loop), *old(pending), action),
    ensures
        final(game_loop).wf(),
        settings_applied(
            *old(config),
            *final(config),
            *old(pending),
            *final(pending),
            *old(game_loop),
            *final(game_loop),
            opt_pieces(static_queue),
            action,
            e,
        ),
{
    match action {
        AppAction::ToggleGhost(on) => {
            set_ghost(config, game_loop, on);
            SettingsEffect::Save
        },
        AppAction::ToggleAutoColor(on) => {
            set_auto_color(config, game_loop, on);
            SettingsEffect::Save
        },
        AppAction::ToggleAutoLockOnGround(on) => {
            set_auto_lock(config, game_loop, on);
            SettingsEffect::Save
        },
        AppAction::SetVolume(v) => {
            let volume: u8 = if v > 100 {
                100
            } else {
                v
            };
            config.volume_percent = volume;
            SettingsEffect::SaveVolume(volume)
        },
        AppAction::SelectSkin(name) => {
            config.selected_skin = name;
            SettingsEffect::SkinSelected
        },
        AppAction::SelectTexture(name) => {
            config.selected_texture = name;
            SettingsEffect::TextureSelected
        },
        AppAction::ApplySettings => apply_pending_settings(config, pending, game_loop, static_queue, true),
        AppAction::ConfirmSettings => apply_pending_settings(config, pending, game_loop, static_queue, false),
        AppAction::CancelSettings => {
            *pending = None;
            SettingsEffect::Cancelled
        },
        _ => SettingsEffect::NotASetting,
    }
}

/// Whether `g` can run in a game loop: its board and overlay are well
/// formed and of one size, and the rows plus a shape's extent are counted
/// in `i32`.
pub open spec fn game_loadable(g: GameState) -> bool {
    g.wf() && g.board.total() + 4 <= i32::MAX
}

/// Tells whether a game read from outside can run (see `game_loadable`).
pub fn game_state_loadable(g: &GameState) -> (r: bool)
    ensures
        r == game_loadable(*g),
{
    let b = &g.board;
    if b.width > 0x7fff_ffff || b.visible_height > 0x7fff_ffff || b.hidden_rows > 0x7fff_ffff {
        return false;
    }
    if (b.visible_height as u64) + (b.hidden_rows as u64) + 4 > 0x7fff_ffff {
        return false;
    }
    let total = b.visible_height + b.hidden_rows;
    match b.width.checked_mul(total) {
        None => false,
        Some(cells) => {
            b.cells.len() == cells && g.highlights.width == b.width && g.highlights.total_height
                == total && g.highlights.cells.len() == cells
        },
    }
}

/// What putting `game` in place of the running one does (`l0` to `l1`): a
/// fresh history, a generator for the game's bag and seed (opening with
/// `queue` where the static bag is on in `c`), no pending sounds or gravity
/// time, and the settings of `c` that take effect at once.
pub open spec fn game_replaced(
    l0: GameLoop,
    l1: GameLoop,
    game: GameState,
    c: AppConfig,
    queue: Option<Seq<Tetromino>>,
) -> bool {
    &&& l1 == runtime_applied(
        GameLoop {
            game: game,
            history: l1.history,
            queue_generator: l1.queue_generator,
            gravity_accum: 0,
            pending_sounds: l1.pending_sounds,
            ..l0
        },
        c,
    )
    &&& l1.history.snapshots@.len() == 0
    &&& l1.history.cursor == 0
    &&& l1.history.capacity == 100
    &&& generator_for(l1.queue_generator, game.queue.mode, game.queue.seed, c.static_bag, queue)
    &&& l1.pending_sounds@.len() == 0
}

/// Puts a game read from outside (the clipboard) in place of the running
/// one: see `game_replaced`.
pub fn replace_game_state(
    game_loop: &mut GameLoop,
    game: GameState,
    config: &AppConfig,
    static_queue: Option<Vec<Tetromino>>,
)
    requires
        old(game_loop).wf(),
        game_loadable(game),
    ensures
        final(game_loop).wf(),
        game_replaced(*old(game_loop), *final(game_loop), game, *config, opt_pieces(static_queue)),
{
    let mode = game.queue.mode;
    let seed = game.queue.seed;
    game_loop.game = game;
    game_loop.history = History::new(100);
    game_loop.queue_generator = GameLoop::create_queue_generator(
        mode,
        seed,
        config.static_bag,
        static_queue,
    );
    game_loop.gravity_accum = 0;
    game_loop.pending_sounds.clear();
    apply_runtime_config(game_loop, config);
}

} // verus!
