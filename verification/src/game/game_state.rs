use vstd::prelude::*;

use super::board::Board;
use super::highlight::HighlightBoard;
use super::piece::{PieceState, Tetromino};

verus! {

/// How many lines one lock cleared.
#[derive(Debug, Clone, Copy, PartialEq, Eq, Structural)]
pub enum LineClearKind {
    NoClear,
    Single,
    Double,
    Triple,
    Tetris,
}

/// The spin bonus a lock earned.
#[derive(Debug, Clone, Copy, PartialEq, Eq, Structural)]
pub enum SpinKind {
    NoSpin,
    Mini,
    TSpin,
}

/// What locking a piece and clearing lines produced.
#[derive(Debug, Clone, PartialEq, Eq)]
pub struct ClearOutcome {
    pub lines_cleared: u8,
    pub line_clear_kind: LineClearKind,
    pub spin_kind: SpinKind,
    pub perfect_clear: bool,
    pub damage_delta: i32,
    pub combo_after: u32,
    pub b2b_after: bool,
    pub attack_text: Option<String>,
    pub b2b_text: Option<String>,
    pub cleared_lines: Vec<usize>,
}

/// How the piece queue is generated.
#[derive(Debug, Clone, Copy, PartialEq, Eq, Structural)]
pub enum BagMode {
    SevenBag,
    FourteenBag,
    Random,
}

/// The training modes.
#[derive(Debug, Clone, Copy, PartialEq, Eq, Structural)]
pub enum GameMode {
    Training,
    Cheese,
    FourWide,
    PerfectClear,
    Master,
    Edit,
}

/// The hold slot.
#[derive(Debug, Clone, PartialEq, Eq)]
pub struct HoldState {
    pub piece: Option<Tetromino>,
    pub swapped_this_turn: bool,
    pub infinite_hold: bool,
}

impl HoldState {
    pub open spec fn spec_default() -> HoldState {
        HoldState { piece: None, swapped_this_turn: false, infinite_hold: true }
    }
}

impl Default for HoldState {
    fn default() -> (r: Self)
        ensures
            r == HoldState::spec_default(),
    {
        Self { piece: None, swapped_this_turn: false, infinite_hold: true }
    }
}

/// The visible piece queue and the seed that continues it.
#[derive(Debug, Clone, PartialEq, Eq)]
pub struct QueueState {
    pub visible: Vec<Tetromino>,
    pub seed: u16,
    pub mode: BagMode,
}

impl Default for QueueState {
    fn default() -> (r: Self)
        ensures
            r.visible@ == Seq::<Tetromino>::empty(),
            r.seed == 0,
            r.mode == BagMode::SevenBag,
    {
        Self { visible: Vec::new(), seed: 0, mode: BagMode::SevenBag }
    }
}

/// Running statistics of a game.
#[derive(Debug, Clone, PartialEq, Eq)]
pub struct Stats {
    pub damage: u32,
    pub lines: u32,
    pub moves: u32,
    pub b2b: bool,
    pub perfect_clear: bool,
    pub combo: u32,
    pub lost: bool,
    pub attack_text: Option<String>,
    pub b2b_text: Option<String>,
}

impl Stats {
    pub open spec fn spec_default() -> Stats {
        Stats {
            damage: 0,
            lines: 0,
            moves: 0,
            b2b: false,
            perfect_clear: false,
            combo: 0,
            lost: false,
            attack_text: None,
            b2b_text: None,
        }
    }
}

impl Default for Stats {
    fn default() -> (r: Self)
        ensures
            r == Stats::spec_default(),
    {
        Self {
            damage: 0,
            lines: 0,
            moves: 0,
            b2b: false,
            perfect_clear: false,
            combo: 0,
            lost: false,
            attack_text: None,
            b2b_text: None,
        }
    }
}

/// The spin state of the falling piece.
#[derive(Debug, Clone, PartialEq, Eq)]
pub struct SpinState {
    pub is_t_spin: bool,
    pub is_mini: bool,
    pub last_kick_index: Option<usize>,
}

impl SpinState {
    pub open spec fn spec_default() -> SpinState {
        SpinState { is_t_spin: false, is_mini: false, last_kick_index: None }
    }
}

impl Default for SpinState {
    fn default() -> (r: Self)
        ensures
            r == SpinState::spec_default(),
    {
        Self { is_t_spin: false, is_mini: false, last_kick_index: None }
    }
}

/// Gravity and handling timings.
#[derive(Debug, Clone, PartialEq, Eq)]
pub struct GravityState {
    pub gravity_hz: Option<u32>,
    pub arr_ms: u32,
    pub das_ms: u32,
    pub sdd_ms: u32,
    pub sds_ms: u32,
    pub das_cancel: bool,
}

impl GravityState {
    pub open spec fn spec_default() -> GravityState {
        GravityState {
            gravity_hz: None,
            arr_ms: 0,
            das_ms: 120,
            sdd_ms: 0,
            sds_ms: 0,
            das_cancel: false,
        }
    }
}

impl Default for GravityState {
    fn default() -> (r: Self)
        ensures
            r == GravityState::spec_default(),
    {
        Self { gravity_hz: None, arr_ms: 0, das_ms: 120, sdd_ms: 0, sds_ms: 0, das_cancel: false }
    }
}

/// Lock delay of a grounded piece.
#[derive(Debug, Clone, Copy, PartialEq, Eq)]
pub struct LockDelayState {
    pub active: bool,
    pub timer_ms: u32,
    pub moves: u8,
    pub max_moves: u8,
    pub delay_ms: u32,
}

impl LockDelayState {
    pub open spec fn spec_default() -> LockDelayState {
        LockDelayState { active: false, timer_ms: 0, moves: 0, max_moves: 15, delay_ms: 500 }
    }

    /// The same delay settings with the timer stopped.
    pub open spec fn spec_reset(self) -> LockDelayState {
        LockDelayState { active: false, timer_ms: 0, moves: 0, ..self }
    }

    /// Stops the timer and forgets the moves made while grounded.
    pub fn reset(&mut self)
        ensures
            *final(self) == old(self).spec_reset(),
    {
        self.active = false;
        self.timer_ms = 0;
        self.moves = 0;
    }
}

impl Default for LockDelayState {
    fn default() -> (r: Self)
        ensures
            r == LockDelayState::spec_default(),
    {
        Self { active: false, timer_ms: 0, moves: 0, max_moves: 15, delay_ms: 500 }
    }
}

/// The flash shown over cleared lines.
#[derive(Debug, Clone, PartialEq, Eq)]
pub struct ClearFlashState {
    pub active: bool,
    pub lines: Vec<usize>,
    pub timer_ms: u32,
    pub duration_ms: u32,
}

impl ClearFlashState {
    /// The default flash: inactive, no lines, 300 ms long.
    pub open spec fn is_default(&self) -> bool {
        &&& !self.active
        &&& self.lines@.len() == 0
        &&& self.timer_ms == 0
        &&& self.duration_ms == 300
    }
}

impl Default for ClearFlashState {
    fn default() -> (r: Self)
        ensures
            r.is_default(),
    {
        Self { active: false, lines: Vec::new(), timer_ms: 0, duration_ms: 300 }
    }
}

/// Everything that describes a game in progress.
#[derive(Debug, Clone, PartialEq, Eq)]
pub struct GameState {
    pub mode: GameMode,
    pub board: Board,
    pub highlights: HighlightBoard,
    pub current: PieceState,
    pub hold: HoldState,
    pub queue: QueueState,
    pub stats: Stats,
    pub spin: SpinState,
    pub gravity: GravityState,
    pub ghost_piece: bool,
    pub auto_color: bool,
    pub auto_lock_on_ground: bool,
    pub mirror_queue_with_field: bool,
    pub highlight_clear: bool,
    pub pc_leftover: usize,
    pub garbage_hole_pos: usize,
    pub garbage_hole_size: usize,
    pub garbage_hole_next_change: usize,
    pub lock_delay: LockDelayState,
    pub clear_flash: ClearFlashState,
}

/// The text of an optional string.
pub open spec fn opt_text(s: Option<String>) -> Option<Seq<char>> {
    match s {
        Some(t) => Some(t@),
        None => None,
    }
}

/// A copy of an optional string.
pub fn copy_opt_text(s: &Option<String>) -> (r: Option<String>)
    ensures
        opt_text(r) == opt_text(*s),
{
    match s {
        Some(t) => Some(t.clone()),
        None => None,
    }
}

/// A copy of a vector of plain values.
pub fn copy_vec<T: Copy>(v: &Vec<T>) -> (r: Vec<T>)
    ensures
        r@ == v@,
{
    let mut r: Vec<T> = Vec::new();
    let mut i: usize = 0;
    while i < v.len()
        invariant
            i <= v@.len(),
            r@ == v@.subrange(0, i as int),
        decreases v@.len() - i,
    {
        r.push(v[i]);
        i += 1;
    }
    assert(r@ =~= v@);
    r
}

impl Board {
    /// Same dimensions and contents.
    pub open spec fn same_as(&self, other: &Board) -> bool {
        &&& self.same_shape(other)
        &&& self.cells@ == other.cells@
    }

    /// A copy of the board.
    pub fn duplicate(&self) -> (r: Board)
        ensures
            r.same_as(self),
    {
        Board {
            width: self.width,
            visible_height: self.visible_height,
            hidden_rows: self.hidden_rows,
            cells: copy_vec(&self.cells),
        }
    }
}

impl HighlightBoard {
    /// Same dimensions and contents.
    pub open spec fn same_as(&self, other: &HighlightBoard) -> bool {
        &&& self.width == other.width
        &&& self.total_height == other.total_height
        &&& self.cells@ == other.cells@
    }

    /// A copy of the overlay.
    pub fn duplicate(&self) -> (r: HighlightBoard)
        ensures
            r.same_as(self),
    {
        HighlightBoard {
            width: self.width,
            total_height: self.total_height,
            cells: copy_vec(&self.cells),
        }
    }
}

impl QueueState {
    /// Same pieces, seed and mode.
    pub open spec fn same_as(&self, other: &QueueState) -> bool {
        &&& self.visible@ == other.visible@
        &&& self.seed == other.seed
        &&& self.mode == other.mode
    }
}

impl Stats {
    /// Same numbers, flags and texts.
    pub open spec fn same_as(&self, other: &Stats) -> bool {
        &&& self.damage == other.damage
        &&& self.lines == other.lines
        &&& self.moves == other.moves
        &&& self.b2b == other.b2b
        &&& self.perfect_clear == other.perfect_clear
        &&& self.combo == other.combo
        &&& self.lost == other.lost
        &&& opt_text(self.attack_text) == opt_text(other.attack_text)
        &&& opt_text(self.b2b_text) == opt_text(other.b2b_text)
    }
}

impl ClearFlashState {
    /// Same flag, lines and timings.
    pub open spec fn same_as(&self, other: &ClearFlashState) -> bool {
        &&& self.active == other.active
        &&& self.lines@ == other.lines@
        &&& self.timer_ms == other.timer_ms
        &&& self.duration_ms == other.duration_ms
    }
}

impl GameState {
    /// Every field equal, collections and texts compared by contents.
    pub open spec fn same_as(&self, other: &GameState) -> bool {
        &&& self.mode == other.mode
        &&& self.board.same_as(&other.board)
        &&& self.highlights.same_as(&other.highlights)
        &&& self.current == other.current
        &&& self.hold == other.hold
        &&& self.queue.same_as(&other.queue)
        &&& self.stats.same_as(&other.stats)
        &&& self.spin == other.spin
        &&& self.gravity == other.gravity
        &&& self.ghost_piece == other.ghost_piece
        &&& self.auto_color == other.auto_color
        &&& self.auto_lock_on_ground == other.auto_lock_on_ground
        &&& self.mirror_queue_with_field == other.mirror_queue_with_field
        &&& self.highlight_clear == other.highlight_clear
        &&& self.pc_leftover == other.pc_leftover
        &&& self.garbage_hole_pos == other.garbage_hole_pos
        &&& self.garbage_hole_size == other.garbage_hole_size
        &&& self.garbage_hole_next_change == other.garbage_hole_next_change
        &&& self.lock_delay == other.lock_delay
        &&& self.clear_flash.same_as(&other.clear_flash)
    }

    /// A copy of the whole state.
    pub fn duplicate(&self) -> (r: GameState)
        ensures
            r.same_as(self),
    {
        GameState {
            mode: self.mode,
            board: self.board.duplicate(),
            highlights: self.highlights.duplicate(),
            current: self.current,
            hold: HoldState {
                piece: self.hold.piece,
                swapped_this_turn: self.hold.swapped_this_turn,
                infinite_hold: self.hold.infinite_hold,
            },
            queue: QueueState {
                visible: copy_vec(&self.queue.visible),
                seed: self.queue.seed,
                mode: self.queue.mode,
            },
            stats: Stats {
                damage: self.stats.damage,
                lines: self.stats.lines,
                moves: self.stats.moves,
                b2b: self.stats.b2b,
                perfect_clear: self.stats.perfect_clear,
                combo: self.stats.combo,
                lost: self.stats.lost,
                attack_text: copy_opt_text(&self.stats.attack_text),
                b2b_text: copy_opt_text(&self.stats.b2b_text),
            },
            spin: SpinState {
                is_t_spin: self.spin.is_t_spin,
                is_mini: self.spin.is_mini,
                last_kick_index: self.spin.last_kick_index,
            },
            gravity: GravityState {
                gravity_hz: self.gravity.gravity_hz,
                arr_ms: self.gravity.arr_ms,
                das_ms: self.gravity.das_ms,
                sdd_ms: self.gravity.sdd_ms,
                sds_ms: self.gravity.sds_ms,
                das_cancel: self.gravity.das_cancel,
            },
            ghost_piece: self.ghost_piece,
            auto_color: self.auto_color,
            auto_lock_on_ground: self.auto_lock_on_ground,
            mirror_queue_with_field: self.mirror_queue_with_field,
            highlight_clear: self.highlight_clear,
            pc_leftover: self.pc_leftover,
            garbage_hole_pos: self.garbage_hole_pos,
            garbage_hole_size: self.garbage_hole_size,
            garbage_hole_next_change: self.garbage_hole_next_change,
            lock_delay: self.lock_delay,
            clear_flash: ClearFlashState {
                active: self.clear_flash.active,
                lines: copy_vec(&self.clear_flash.lines),
                timer_ms: self.clear_flash.timer_ms,
                duration_ms: self.clear_flash.duration_ms,
            },
        }
    }
}

impl GameState {
    /// The board and the highlight overlay are well formed and of the same
    /// size.
    pub open spec fn wf(&self) -> bool {
        &&& self.board.wf()
        &&& self.highlights.wf()
        &&& self.highlights.width == self.board.width
        &&& self.highlights.total_height == self.board.total()
    }

    /// Whether the game is over.
    pub fn is_lost(&self) -> (r: bool)
        ensures
            r == self.stats.lost,
    {
        self.stats.lost
    }
}

} // verus!
