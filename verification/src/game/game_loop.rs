use vstd::prelude::*;

use super::bag::{QueueGenerator, queue_base, valid_bag};
use super::board::{Board, covers, piece_in_range};
use super::game_state::{
    BagMode, ClearFlashState, ClearOutcome, GameMode, GameState, GravityState, HoldState,
    LockDelayState, QueueState, SpinKind, SpinState, Stats, copy_vec,
};
use super::grid::lemma_grid_index_bounds;
use super::highlight::HighlightBoard;
use super::history::{History, UndoSnapshot, pushed};
use super::hold::HoldError;
use super::lines::{count_marked, lemma_marked_rows_len};
use super::modes::{
    four_wide_fresh, fresh_cheese_row, is_bag_prefix, mode_gravity, reset_as, reset_for_mode,
};
use super::piece::{
    Cell, DEFAULT_BOARD_WIDTH, DEFAULT_HIDDEN_ROWS, DEFAULT_VISIBLE_HEIGHT, PieceState, Rotation,
    RotationCommand, Tetromino, spec_cell_from_piece,
};
use super::rotation::{
    after_placement, fits, freeze_active_piece, kick_in_range, lemma_below_floor_does_not_fit,
    rotation_result, shifted, spec_fits, try_move, try_rotate,
};
use super::scoring::{
    clear_resolvable, clear_resolved, collect_full_rows, full_row_count, full_rows,
    resolve_lock_and_clears,
};

verus! {

/// Sounds the game asks the front end to play.
#[derive(Debug, Clone, Copy, PartialEq, Eq, Structural)]
pub enum SoundEffect {
    Move,
    Rotate,
    HardDrop,
    Hold,
    Kick,
    Clear,
    Tetris,
    TSpin,
    BackToBack,
    Fall,
    Lose,
}

/// A game in progress with its undo history, piece generator, gravity
/// accumulator and the sounds waiting to be played.
pub struct GameLoop {
    pub game: GameState,
    pub history: History,
    pub queue_generator: QueueGenerator,
    pub static_bag_enabled: bool,
    pub gravity_accum: u32,
    pub pending_sounds: Vec<SoundEffect>,
    pub turn_start_snapshot: Option<UndoSnapshot>,
}

/// The piece a new turn starts with: `kind` in spawn orientation at the
/// spawn position of `board`.
pub open spec fn spawn_piece(board: Board, kind: Tetromino) -> PieceState {
    PieceState {
        kind: kind,
        rotation: Rotation::Spawn,
        x: (board.width as int / 2 - 2) as i32,
        y: (board.hidden_rows - 2) as i32,
    }
}

/// The generator a game starts with: one that opens with `static_queue`
/// when the static bag is enabled and the sequence is not empty, a plain
/// one otherwise.
pub open spec fn generator_for(
    g: QueueGenerator,
    mode: BagMode,
    seed: u16,
    static_bag_enabled: bool,
    static_queue: Option<Seq<Tetromino>>,
) -> bool {
    &&& g.mode == mode
    &&& g.seed == seed
    &&& g.static_sequence@ == (match static_queue {
        Some(q) => if static_bag_enabled {
            q
        } else {
            Seq::empty()
        },
        None => Seq::empty(),
    })
}

/// The view of an optional piece list.
pub open spec fn opt_pieces(q: Option<Vec<Tetromino>>) -> Option<Seq<Tetromino>> {
    match q {
        Some(v) => Some(v@),
        None => None,
    }
}

/// `q1` is what refilling `q0` can give: unchanged when it holds seven
/// pieces, otherwise the fixed sequence (for an empty queue) or the queue
/// itself, followed by one valid bag unless that already holds seven.
pub open spec fn refilled(gen: QueueGenerator, q0: Seq<Tetromino>, q1: Seq<Tetromino>) -> bool {
    if q0.len() >= 7 {
        q1 == q0
    } else {
        let base = queue_base(gen.static_sequence@, q0);
        if base.len() >= 7 {
            q1 == base
        } else {
            &&& q1.len() > base.len()
            &&& q1.subrange(0, base.len() as int) == base
            &&& valid_bag(gen.mode, q1.subrange(base.len() as int, q1.len() as int))
        }
    }
}

/// `a` is `b` after the next piece was spawned: the queue was refilled
/// when it held fewer than seven pieces (the game's seed following the
/// generator's), its first piece became the current piece at the spawn
/// position, the hold lock, spin and lock delay were reset, and the turn's
/// starting state was recorded; when the piece does not fit there, the
/// game is lost instead and the losing sound is queued.
pub open spec fn spawned(b: GameLoop, a: GameLoop) -> bool {
    let q0 = b.game.queue.visible@;
    let q1 = seq![a.game.current.kind] + a.game.queue.visible@;
    let fits_now = spec_fits(b.game.board, a.game.current);
    &&& refilled(b.queue_generator, q0, q1)
    &&& a.queue_generator.mode == b.queue_generator.mode
    &&& a.queue_generator.static_sequence@ == b.queue_generator.static_sequence@
    &&& q0.len() >= 7 ==> a.queue_generator == b.queue_generator && a.game.queue.seed
        == b.game.queue.seed
    &&& q0.len() < 7 ==> a.game.queue.seed == a.queue_generator.seed
    &&& a.game.queue.mode == b.game.queue.mode
    &&& a.game.current == spawn_piece(b.game.board, a.game.current.kind)
    &&& a.game == (GameState {
        current: a.game.current,
        queue: a.game.queue,
        hold: HoldState { swapped_this_turn: false, ..b.game.hold },
        spin: SpinState::spec_default(),
        lock_delay: b.game.lock_delay.spec_reset(),
        stats: Stats { lost: b.game.stats.lost || !fits_now, ..b.game.stats },
        ..b.game
    })
    &&& !fits_now ==> a.pending_sounds@ == b.pending_sounds@.push(SoundEffect::Lose)
        && a.turn_start_snapshot == b.turn_start_snapshot
    &&& fits_now ==> a.pending_sounds@ == b.pending_sounds@ && records_turn_start(a)
    &&& a.history == b.history
    &&& a.static_bag_enabled == b.static_bag_enabled
    &&& a.gravity_accum == b.gravity_accum
}

/// A snapshot that can be restored into a running game.
pub open spec fn snapshot_ok(s: UndoSnapshot) -> bool {
    &&& s.game.wf()
    &&& s.game.board.total() + 4 <= i32::MAX
}

/// The turn's starting snapshot holds the current game, generator and
/// gravity accumulator.
pub open spec fn records_turn_start(a: GameLoop) -> bool {
    match a.turn_start_snapshot {
        Some(s) => {
            &&& s.game.same_as(&a.game)
            &&& s.queue_generator.same_as(&a.queue_generator)
            &&& s.gravity_accum == a.gravity_accum
        },
        None => false,
    }
}

/// `f` is the game a new game loop starts with in `mode`: for cheese the
/// four garbage rows, for four-wide one of the walled wells, else an empty
/// board; an empty overlay; in perfect-clear mode one opening piece, else an
/// empty queue on `seed`; an I piece in spawn orientation two rows above the
/// visible field; an empty hold slot; statistics, spin, lock delay and flash
/// at their defaults; the mode's gravity; and the default switches.
pub open spec fn started_game(
    f: GameState,
    mode: GameMode,
    bag_mode: BagMode,
    seed: u16,
    infinite_hold: bool,
    hidden_rows: usize,
) -> bool {
    &&& f.highlights.all_zero()
    &&& mode == GameMode::Cheese ==> forall|y: int|
        0 <= y < f.board.total() ==> #[trigger] fresh_cheese_row(f.board, 4, y)
    &&& mode == GameMode::FourWide ==> exists|p: int|
        0 <= p < 6 && #[trigger] four_wide_fresh(f.board, p)
    &&& mode != GameMode::Cheese && mode != GameMode::FourWide ==> {
        &&& f.board.all_empty()
        &&& forall|x: int, y: int|
            #![trigger f.board.at(x, y)]
            f.board.spec_in_bounds(x, y) ==> f.board.at(x, y) == Cell::Empty
    }
    &&& mode == GameMode::PerfectClear ==> {
        &&& f.queue.visible@.len() == 1
        &&& is_bag_prefix(f.queue.visible@, 1)
    }
    &&& mode != GameMode::PerfectClear ==> {
        &&& f.queue.visible@.len() == 0
        &&& f.queue.seed == seed
    }
    &&& f.queue.mode == bag_mode
    &&& f.clear_flash.is_default()
    &&& f == (GameState {
        mode: mode,
        board: f.board,
        highlights: f.highlights,
        current: PieceState {
            kind: Tetromino::I,
            rotation: Rotation::Spawn,
            x: (f.board.width as int / 2 - 2) as i32,
            y: (hidden_rows - 2) as i32,
        },
        hold: HoldState { piece: None, swapped_this_turn: false, infinite_hold: infinite_hold },
        queue: f.queue,
        stats: Stats::spec_default(),
        spin: SpinState::spec_default(),
        gravity: mode_gravity(mode),
        lock_delay: LockDelayState::spec_default(),
        clear_flash: f.clear_flash,
        ghost_piece: true,
        auto_color: false,
        auto_lock_on_ground: false,
        mirror_queue_with_field: false,
        highlight_clear: false,
        pc_leftover: 0,
        garbage_hole_pos: 0,
        garbage_hole_size: 0,
        garbage_hole_next_change: 0,
    })
}

impl GameLoop {
    /// The game and overlay are well formed, the board's rows plus a
    /// shape's extent are counted in `i32`, the history's cursor is in
    /// range, and so are the stored snapshots.
    pub open spec fn wf(&self) -> bool {
        &&& self.game.wf()
        &&& self.history.wf()
        &&& self.game.board.total() + 4 <= i32::MAX
        &&& forall|i: int|
            0 <= i < self.history.snapshots@.len() ==> #[trigger] snapshot_ok(
                self.history.snapshots@[i],
            )
        &&& self.turn_start_snapshot matches Some(s) ==> snapshot_ok(s)
    }

    /// The snapshot recorded when the current turn started.
    pub open spec fn turn_start(&self) -> Option<UndoSnapshot> {
        self.turn_start_snapshot
    }

    /// The generator a new or reset game uses: `static_queue` is the
    /// fixed opening sequence read for the static bag, if any.
    pub(crate) fn create_queue_generator(
        mode: BagMode,
        seed: u16,
        static_bag_enabled: bool,
        static_queue: Option<Vec<Tetromino>>,
    ) -> (g: QueueGenerator)
        ensures
            generator_for(g, mode, seed, static_bag_enabled, opt_pieces(static_queue)),
    {
        if !static_bag_enabled {
            return QueueGenerator::new(mode, seed);
        }
        match static_queue {
            Some(static_sequence) => {
                if static_sequence.len() > 0 {
                    QueueGenerator::with_static_sequence(mode, seed, static_sequence)
                } else {
                    assert(static_sequence@ =~= Seq::<Tetromino>::empty());
                    QueueGenerator::new(mode, seed)
                }
            },
            None => QueueGenerator::new(mode, seed),
        }
    }

    /// A game on the default ten by twenty board with four hidden rows and
    /// no static bag.
    pub fn new(mode: GameMode, bag_mode: BagMode, seed: u16, infinite_hold: bool) -> (l: Self)
        ensures
            l.wf(),
            l.game.board.width == DEFAULT_BOARD_WIDTH,
            l.game.board.visible_height == DEFAULT_VISIBLE_HEIGHT,
            l.game.board.hidden_rows == DEFAULT_HIDDEN_ROWS,
            l.game.mode == mode,
            l.game.queue.mode == bag_mode,
            l.game.hold.infinite_hold == infinite_hold,
            l.game.current.y == DEFAULT_HIDDEN_ROWS - 2,
            started_game(l.game, mode, bag_mode, seed, infinite_hold, DEFAULT_HIDDEN_ROWS),
            l.queue_generator.mode == bag_mode,
            l.queue_generator.seed == l.game.queue.seed,
            l.queue_generator.static_sequence@.len() == 0,
            !l.static_bag_enabled,
            l.gravity_accum == 0,
            l.pending_sounds@.len() == 0,
            l.history.snapshots@.len() == 0,
            l.history.cursor == 0,
            l.turn_start() is None,
    {
        Self::new_with_board(
            mode,
            bag_mode,
            seed,
            infinite_hold,
            false,
            DEFAULT_BOARD_WIDTH,
            DEFAULT_VISIBLE_HEIGHT,
            DEFAULT_HIDDEN_ROWS,
            None,
        )
    }

    /// A game on a board of the given size, started as `reset_for_mode`
    /// starts `mode` (the piece then stands two rows above the visible
    /// field), with a history of a hundred steps and a generator built by
    /// `create_queue_generator` from the game's bag mode and seed.
    pub fn new_with_board(
        mode: GameMode,
        bag_mode: BagMode,
        seed: u16,
        infinite_hold: bool,
        static_bag_enabled: bool,
        board_width: usize,
        visible_height: usize,
        hidden_rows: usize,
        static_queue: Option<Vec<Tetromino>>,
    ) -> (l: Self)
        requires
            visible_height + hidden_rows + 4 <= i32::MAX,
            board_width <= i32::MAX,
            board_width * (visible_height + hidden_rows) <= usize::MAX,
            mode == GameMode::Cheese ==> board_width > 0 || visible_height + hidden_rows == 0,
            mode == GameMode::FourWide ==> board_width >= 4 && visible_height + hidden_rows >= 2,
        ensures
            l.wf(),
            l.game.board.width == board_width,
            l.game.board.visible_height == visible_height,
            l.game.board.hidden_rows == hidden_rows,
            l.game.highlights.total_height == visible_height + hidden_rows,
            l.game.mode == mode,
            l.game.queue.mode == bag_mode,
            l.game.hold.infinite_hold == infinite_hold,
            l.game.current.x == board_width as int / 2 - 2,
            l.game.current.y == hidden_rows as int - 2,
            started_game(l.game, mode, bag_mode, seed, infinite_hold, hidden_rows),
            generator_for(
                l.queue_generator,
                bag_mode,
                l.game.queue.seed,
                static_bag_enabled,
                opt_pieces(static_queue),
            ),
            mode != GameMode::PerfectClear ==> l.game.queue.seed == seed,
            l.static_bag_enabled == static_bag_enabled,
            l.gravity_accum == 0,
            l.pending_sounds@.len() == 0,
            l.history.snapshots@.len() == 0,
            l.history.cursor == 0,
            l.history.capacity == 100,
            l.turn_start() is None,
    {
        let board = Board::new(board_width, visible_height, hidden_rows);
        let total = board.total_height();
        let mut game = GameState {
            mode,
            board,
            highlights: HighlightBoard::new(board_width, total),
            current: PieceState {
                kind: Tetromino::I,
                rotation: Rotation::Spawn,
                x: (board_width as i32) / 2 - 2,
                y: total as i32 - 2,
            },
            hold: HoldState { piece: None, swapped_this_turn: false, infinite_hold },
            queue: QueueState { visible: Vec::new(), seed, mode: bag_mode },
            stats: Stats {
                damage: 0,
                lines: 0,
                moves: 0,
                b2b: false,
                perfect_clear: false,
                combo: 0,
                lost: false,
                attack_text: None,
                b2b_text: None,
            },
            spin: SpinState { is_t_spin: false, is_mini: false, last_kick_index: None },
            gravity: GravityState {
                gravity_hz: None,
                arr_ms: 0,
                das_ms: 120,
                sdd_ms: 0,
                sds_ms: 0,
                das_cancel: false,
            },
            ghost_piece: true,
            auto_color: false,
            auto_lock_on_ground: false,
            mirror_queue_with_field: false,
            highlight_clear: false,
            pc_leftover: 0,
            garbage_hole_pos: 0,
            garbage_hole_size: 0,
            garbage_hole_next_change: 0,
            lock_delay: LockDelayState {
                active: false,
                timer_ms: 0,
                moves: 0,
                max_moves: 15,
                delay_ms: 500,
            },
            clear_flash: ClearFlashState {
                active: false,
                lines: Vec::new(),
                timer_ms: 0,
                duration_ms: 300,
            },
        };
        let ghost initial = game;
        reset_for_mode(&mut game, mode);
        let ghost reset = game;
        game.current.y = (hidden_rows as i32) - 2;
        proof {
            assert(reset_as(initial, reset, mode));
            assert(game.board == reset.board);
            assert(game.highlights == reset.highlights);
            if mode != GameMode::Cheese && mode != GameMode::FourWide {
                assert forall|x: int, y: int| game.board.spec_in_bounds(x, y) implies #[trigger] game.board.at(
                    x,
                    y,
                ) == Cell::Empty by {
                    lemma_grid_index_bounds(game.board.width as int, game.board.total(), x, y);
                }
            }
        }
        let generator = Self::create_queue_generator(
            game.queue.mode,
            game.queue.seed,
            static_bag_enabled,
            static_queue,
        );
        GameLoop {
            game,
            history: History::new(100),
            queue_generator: generator,
            static_bag_enabled,
            gravity_accum: 0,
            pending_sounds: Vec::new(),
            turn_start_snapshot: None,
        }
    }

    /// Records the current state in the history.
    pub fn push_snapshot(&mut self)
        requires
            old(self).wf(),
        ensures
            final(self).wf(),
            final(self).history.capacity == old(self).history.capacity,
            snapshot_pushed(*old(self), *final(self)),
    {
        let snapshot = UndoSnapshot::new(&self.game, &self.queue_generator, self.gravity_accum);
        self.history.push(snapshot);
    }

    /// Records the snapshot taken when the current turn started, if any.
    fn push_turn_start_snapshot(&mut self)
        requires
            old(self).wf(),
        ensures
            final(self).wf(),
            turn_start_pushed(*old(self), *final(self)),
    {
        match &self.turn_start_snapshot {
            Some(snapshot) => {
                let copy = snapshot.duplicate();
                self.history.push(copy);
            },
            None => {},
        }
    }

    /// Makes the current state the turn's starting state, as after an
    /// edit of the board.
    pub fn update_turn_start_snapshot(&mut self)
        ensures
            records_turn_start(*final(self)),
            *final(self) == (GameLoop { turn_start_snapshot: final(self).turn_start_snapshot, ..*old(self) }),
    {
        self.turn_start_snapshot = Some(
            UndoSnapshot::new(&self.game, &self.queue_generator, self.gravity_accum),
        );
    }

    /// Brings the game's queue seed in line with the generator's.
    fn sync_queue_seed(&mut self)
        ensures
            *final(self) == (GameLoop {
                game: GameState {
                    queue: QueueState { seed: old(self).queue_generator.seed, ..old(self).game.queue },
                    ..old(self).game
                },
                ..*old(self)
            }),
    {
        self.game.queue.seed = self.queue_generator.seed;
    }

    /// Puts the state held by `snapshot` back in place; it becomes the
    /// turn's starting state and the pending sounds are dropped.
    fn apply_snapshot(&mut self, snapshot: UndoSnapshot)
        requires
            old(self).wf(),
            snapshot_ok(snapshot),
        ensures
            final(self).wf(),
            restored(*old(self), *final(self), snapshot),
    {
        self.game = snapshot.game.duplicate();
        self.queue_generator = QueueGenerator {
            mode: snapshot.queue_generator.mode,
            seed: snapshot.queue_generator.seed,
            static_sequence: copy_vec(&snapshot.queue_generator.static_sequence),
        };
        self.gravity_accum = snapshot.gravity_accum;
        self.turn_start_snapshot = Some(snapshot);
        self.pending_sounds.clear();
    }

    /// Steps back in the history; `false` when there is nothing to undo.
    pub fn undo(&mut self) -> (r: bool)
        requires
            old(self).wf(),
        ensures
            final(self).wf(),
            undone(*old(self), *final(self), r),
    {
        let ghost h = self.history;
        match self.history.undo() {
            Some(snapshot) => {
                proof {
                    assert(snapshot_ok(h.snapshots@[h.cursor - 1]));
                }
                self.apply_snapshot(snapshot);
                true
            },
            None => false,
        }
    }

    /// Steps forward in the history; `false` when there is nothing to redo.
    pub fn redo(&mut self) -> (r: bool)
        requires
            old(self).wf(),
        ensures
            final(self).wf(),
            redone(*old(self), *final(self), r),
    {
        let ghost h = self.history;
        match self.history.redo() {
            Some(snapshot) => {
                proof {
                    assert(snapshot_ok(h.snapshots@[h.cursor as int]));
                }
                self.apply_snapshot(snapshot);
                true
            },
            None => false,
        }
    }

    /// Spawns the next queued piece, refilling the queue first when it runs
    /// low. Returns whether the piece fits; when it does not, the game is
    /// lost.
    #[verifier::rlimit(40)]
    pub fn spawn_next(&mut self) -> (r: bool)
        requires
            old(self).wf(),
        ensures
            final(self).wf(),
            spawned(*old(self), *final(self)),
            r == spec_fits(old(self).game.board, final(self).game.current),
    {
        if self.game.queue.visible.len() < 7 {
            self.queue_generator.fill_queue(&mut self.game.queue.visible);
            self.sync_queue_seed();
        }
        if self.game.queue.visible.len() == 0 {
            return false;
        }
        let ghost q1 = self.game.queue.visible@;
        let next = self.game.queue.visible.remove(0);
        proof {
            assert(q1 =~= seq![next] + self.game.queue.visible@);
        }
        let hidden = self.game.board.hidden_rows;
        self.game.current.kind = next;
        self.game.current.x = (self.game.board.width as i32) / 2 - 2;
        self.game.current.y = (hidden as i32) - 2;
        self.game.current.rotation = Rotation::Spawn;
        self.game.hold.swapped_this_turn = false;
        self.game.spin = SpinState::default();
        self.game.lock_delay.active = false;
        self.game.lock_delay.timer_ms = 0;
        self.game.lock_delay.moves = 0;
        if !fits(&self.game.board, self.game.current) {
            self.game.stats.lost = true;
            self.pending_sounds.push(SoundEffect::Lose);
            return false;
        }
        self.turn_start_snapshot = Some(
            UndoSnapshot::new(&self.game, &self.queue_generator, self.gravity_accum),
        );
        true
    }

    /// Whether the current piece could move one row down.
    pub fn can_move_down(&self) -> (r: bool)
        requires
            self.game.board.wf(),
            self.game.current.x <= i32::MAX - 3,
            self.game.current.y <= i32::MAX - 4,
        ensures
            r == spec_fits(self.game.board, shifted(self.game.current, 0, 1)),
    {
        let next = PieceState { y: self.game.current.y + 1, ..self.game.current };
        fits(&self.game.board, next)
    }

    /// Where the current piece would land if dropped straight down.
    pub fn ghost_position(&self) -> (p: PieceState)
        requires
            self.wf(),
            piece_in_range(self.game.current),
        ensures
            exists|k: int| k >= 0 && p == shifted(self.game.current, 0, k) && #[trigger] drops_by(
                self.game.board,
                self.game.current,
                k,
            ),
    {
        let board = &self.game.board;
        let total = board.total_height();
        let start = self.game.current;
        let mut ghost = self.game.current;
        let ghost bound: int = if start.y > total as int {
            start.y as int
        } else {
            total as int
        };
        loop
            invariant
                board.wf(),
                total == board.total(),
                total + 4 <= i32::MAX,
                piece_in_range(start),
                start.y <= bound,
                total <= bound,
                bound <= i32::MAX - 3,
                ghost.y <= bound,
                ghost.y >= start.y,
                ghost == shifted(start, 0, ghost.y - start.y),
                forall|j: int| 1 <= j <= ghost.y - start.y ==> #[trigger] spec_fits(*board, shifted(start, 0, j)),
            ensures
                ghost.y >= start.y,
                ghost == shifted(start, 0, ghost.y - start.y),
                drops_by(*board, start, ghost.y - start.y),
            decreases bound - ghost.y,
        {
            if ghost.y >= total as i32 {
                proof {
                    lemma_below_floor_does_not_fit(*board, shifted(ghost, 0, 1));
                    assert(shifted(ghost, 0, 1) == shifted(start, 0, ghost.y - start.y + 1));
                    assert(drops_by(*board, start, ghost.y - start.y));
                }
                break;
            }
            let next = PieceState { y: ghost.y + 1, ..ghost };
            if !fits(board, next) {
                proof {
                    assert(next == shifted(start, 0, ghost.y - start.y + 1));
                    assert(drops_by(*board, start, ghost.y - start.y));
                }
                break;
            }
            ghost = next;
        }
        ghost
    }

    /// Swaps the current piece with the hold slot; on success the hold sound
    /// is queued, the lock delay is reset, and the queue is refilled when it
    /// runs low.
    pub fn hold_swap(&mut self) -> (r: Result<(), HoldError>)
        requires
            old(self).wf(),
        ensures
            final(self).wf(),
            r is Err <==> super::hold::hold_locked(old(self).game),
            r is Err ==> r == Err::<(), HoldError>(HoldError::Locked) && *final(self) == *old(self),
            r is Ok ==> held(*old(self), *final(self)),
    {
        let result = super::hold::hold_swap(&mut self.game);
        if result.is_ok() {
            self.pending_sounds.push(SoundEffect::Hold);
            self.game.lock_delay.active = false;
            self.game.lock_delay.timer_ms = 0;
            self.game.lock_delay.moves = 0;
            if self.game.queue.visible.len() < 7 {
                self.queue_generator.fill_queue(&mut self.game.queue.visible);
                self.sync_queue_seed();
            }
        }
        result
    }

    /// Locks the current piece: writes it into the board, clears and scores
    /// full rows, resets the lock delay and, unless the game is lost, starts
    /// the clear flash, queues the lock's sounds and spawns the next piece.
    fn do_lock_and_spawn_inner(&mut self)
        requires
            old(self).wf(),
            lock_ready(old(self).game),
        ensures
            final(self).wf(),
            lock_done(*old(self), *final(self)),
    {
        let ghost b = *self;
        freeze_active_piece(&mut self.game);
        let ghost frozen = self.game;
        proof {
            lemma_frozen_count(b.game, frozen);
        }
        let outcome = resolve_lock_and_clears(&mut self.game);
        let ghost resolved = self.game;
        self.game.lock_delay.active = false;
        self.game.lock_delay.timer_ms = 0;
        self.game.lock_delay.moves = 0;
        if !self.game.stats.lost {
            if outcome.lines_cleared > 0 {
                if self.game.highlight_clear {
                    self.game.clear_flash.active = true;
                    self.game.clear_flash.lines = copy_vec(&outcome.cleared_lines);
                    self.game.clear_flash.timer_ms = 0;
                }
                match outcome.lines_cleared {
                    4 => self.pending_sounds.push(SoundEffect::Tetris),
                    _ => {
                        if outcome.spin_kind != SpinKind::NoSpin {
                            if outcome.b2b_after {
                                self.pending_sounds.push(SoundEffect::BackToBack);
                            }
                            self.pending_sounds.push(SoundEffect::TSpin);
                        } else {
                            self.pending_sounds.push(SoundEffect::Clear);
                        }
                    },
                }
            } else {
                self.pending_sounds.push(SoundEffect::Fall);
            }
            let ghost m = *self;
            proof {
                assert(m.pending_sounds@ =~= b.pending_sounds@ + lock_sounds(outcome));
                assert(settled_after_lock(b, resolved, outcome, m));
            }
            self.spawn_next();
            proof {
                assert(lock_steps(b, frozen, resolved, outcome, m, *self));
            }
        } else {
            proof {
                assert(settled_after_lock(b, resolved, outcome, *self));
                assert(lock_steps(b, frozen, resolved, outcome, *self, *self));
            }
        }
    }

    /// Locks the current piece now, recording the turn's starting state in
    /// the history first.
    pub fn lock_and_spawn(&mut self)
        requires
            old(self).wf(),
            lock_ready(old(self).game),
        ensures
            final(self).wf(),
            locked_after_turn_start(*old(self), *final(self)),
    {
        let ghost b = *self;
        self.push_turn_start_snapshot();
        let ghost m = *self;
        self.do_lock_and_spawn_inner();
        proof {
            assert(turn_start_pushed(b, m) && lock_done(m, *self));
        }
    }

    /// Moves the current piece by `(dx, dy)` if it fits there; the move
    /// sound is queued and, while grounded, the lock delay restarts and
    /// counts the move, locking the piece once the allowed moves are used.
    pub fn try_move_piece(&mut self, dx: i32, dy: i32) -> (success: bool)
        requires
            old(self).wf(),
            piece_in_range(shifted(old(self).game.current, dx as int, dy as int)),
            i32::MIN <= old(self).game.current.x + dx <= i32::MAX,
            i32::MIN <= old(self).game.current.y + dy <= i32::MAX,
            spec_fits(old(self).game.board, shifted(old(self).game.current, dx as int, dy as int))
                ==> {
                &&& old(self).game.stats.moves < u32::MAX
                &&& old(self).game.lock_delay.active ==> old(self).game.lock_delay.moves < u8::MAX
                &&& out_of_moves(moved_game(old(self).game, dx as int, dy as int)) ==> lock_ready(
                    moved_game(old(self).game, dx as int, dy as int),
                )
            },
        ensures
            final(self).wf(),
            success == spec_fits(
                old(self).game.board,
                shifted(old(self).game.current, dx as int, dy as int),
            ),
            !success ==> *final(self) == *old(self),
            success ==> acted(
                *old(self),
                *final(self),
                moved_game(old(self).game, dx as int, dy as int),
                SoundEffect::Move,
            ),
    {
        let ghost b = *self;
        let success = try_move(&mut self.game, dx, dy);
        if success {
            self.pending_sounds.push(SoundEffect::Move);
            if self.game.lock_delay.active {
                self.game.lock_delay.timer_ms = 0;
                self.game.lock_delay.moves += 1;
                if self.game.lock_delay.moves >= self.game.lock_delay.max_moves {
                    let ghost m = *self;
                    self.push_turn_start_snapshot();
                    let ghost m2 = *self;
                    self.do_lock_and_spawn_inner();
                    proof {
                        assert(turn_start_pushed(m, m2) && lock_done(m2, *self));
                        assert(with_game_and_sound(
                            b,
                            m,
                            moved_game(b.game, dx as int, dy as int),
                            SoundEffect::Move,
                        ));
                    }
                }
            }
        }
        success
    }

    /// Turns the current piece as `command` asks, trying wall kicks; the
    /// kick or rotate sound is queued and, while grounded, the lock delay
    /// restarts and counts the turn, locking the piece once the allowed
    /// moves are used.
    pub fn try_rotate_piece(&mut self, command: RotationCommand) -> (success: bool)
        requires
            old(self).wf(),
            kick_in_range(old(self).game.current),
            rotation_result(old(self).game.board, old(self).game.current, command) matches Some(
                (p, k),
            ) ==> {
                &&& old(self).game.stats.moves < u32::MAX
                &&& old(self).game.lock_delay.active ==> old(self).game.lock_delay.moves < u8::MAX
                &&& out_of_moves(delay_counted(after_placement(old(self).game, p, k)))
                    ==> lock_ready(delay_counted(after_placement(old(self).game, p, k)))
            },
        ensures
            final(self).wf(),
            success == rotation_result(old(self).game.board, old(self).game.current, command) is Some,
            !success ==> *final(self) == *old(self),
            rotation_result(old(self).game.board, old(self).game.current, command) matches Some(
                (p, k),
            ) ==> acted(
                *old(self),
                *final(self),
                delay_counted(after_placement(old(self).game, p, k)),
                if k is Some {
                    SoundEffect::Kick
                } else {
                    SoundEffect::Rotate
                },
            ),
    {
        let ghost b = *self;
        let success = try_rotate(&mut self.game, command);
        if success {
            let used_kick = self.game.spin.last_kick_index.is_some();
            self.pending_sounds.push(
                if used_kick {
                    SoundEffect::Kick
                } else {
                    SoundEffect::Rotate
                },
            );
            if self.game.lock_delay.active {
                self.game.lock_delay.timer_ms = 0;
                self.game.lock_delay.moves += 1;
                if self.game.lock_delay.moves >= self.game.lock_delay.max_moves {
                    let ghost m = *self;
                    self.push_turn_start_snapshot();
                    let ghost m2 = *self;
                    self.do_lock_and_spawn_inner();
                    proof {
                        let (p, k) = rotation_result(b.game.board, b.game.current, command)->0;
                        assert(turn_start_pushed(m, m2) && lock_done(m2, *self));
                        assert(with_game_and_sound(
                            b,
                            m,
                            delay_counted(after_placement(b.game, p, k)),
                            if k is Some {
                                SoundEffect::Kick
                            } else {
                                SoundEffect::Rotate
                            },
                        ));
                    }
                }
            }
            proof {
                let (p, k) = rotation_result(b.game.board, b.game.current, command)->0;
                let sound = if k is Some {
                    SoundEffect::Kick
                } else {
                    SoundEffect::Rotate
                };
                if !out_of_moves(delay_counted(after_placement(b.game, p, k))) {
                    assert(with_game_and_sound(b, *self, delay_counted(after_placement(b.game, p, k)), sound));
                }
            }
        }
        success
    }

    /// Drops the current piece straight down and locks it, recording the
    /// turn's starting state first and queueing the hard-drop sound.
    pub fn hard_drop(&mut self)
        requires
            old(self).wf(),
            piece_in_range(old(self).game.current),
            old(self).game.current.y <= i32::MAX - 4,
            forall|j: int|
                j >= 0 && #[trigger] fits_down_to(old(self).game.board, old(self).game.current, j)
                    ==> old(self).game.stats.moves + j <= u32::MAX,
            forall|k: int|
                k >= 0 && #[trigger] drops_by(old(self).game.board, old(self).game.current, k)
                    ==> lock_ready(dropped_game(old(self).game, k)),
        ensures
            final(self).wf(),
            hard_dropped(*old(self), *final(self)),
    {
        let ghost b = *self;
        self.push_turn_start_snapshot();
        let ghost m = *self;
        self.game.lock_delay.active = false;
        self.game.lock_delay.timer_ms = 0;
        self.game.lock_delay.moves = 0;
        self.pending_sounds.push(SoundEffect::HardDrop);
        let ghost g0 = self.game;
        drop_to_floor(&mut self.game);
        let ghost j = choose|k: int|
            k >= 0 && #[trigger] drops_by(g0.board, g0.current, k) && self.game == dropped_game(g0, k);
        proof {
            assert(dropped_game(g0, j) == (GameState {
                lock_delay: b.game.lock_delay.spec_reset(),
                ..dropped_game(b.game, j)
            }));
            assert(lock_ready(dropped_game(b.game, j)));
            lemma_lock_ready_ignores_delay(dropped_game(b.game, j), b.game.lock_delay.spec_reset());
        }
        let ghost m2 = *self;
        self.do_lock_and_spawn_inner();
        proof {
            assert(drop_steps(b, m, m2, j, *self));
        }
    }

    /// Lets gravity pull the piece down for `dt_ms` more milliseconds.
    fn apply_gravity(&mut self, dt_ms: u32)
        requires
            old(self).wf(),
            piece_in_range(old(self).game.current),
            old(self).game.current.y <= i32::MAX - 4,
            old(self).game.gravity.gravity_hz matches Some(hz) ==> hz <= 1000,
            gravity_on(old(self).game) ==> old(self).gravity_accum + dt_ms <= u32::MAX,
            forall|j: int|
                0 <= j <= gravity_steps(old(self).game, old(self).gravity_accum as int, dt_ms as int)
                    && #[trigger] fits_down_to(old(self).game.board, old(self).game.current, j)
                    ==> old(self).game.stats.moves + j <= u32::MAX,
        ensures
            final(self).wf(),
            gravity_applied(*old(self), *final(self), dt_ms as int),
    {
        let ghost b = *self;
        match self.game.gravity.gravity_hz {
            Some(hz) => {
                if hz > 0 {
                    let interval = 1000 / hz;
                    self.gravity_accum += dt_ms;
                    let ghost acc: int = self.gravity_accum as int;
                    let ghost i: int = interval as int;
                    let ghost g0 = self.game;
                    let ghost start = g0.current;
                    let ghost total = g0.board.total();
                    let ghost mut j: int = 0;
                    let ghost mut broke = false;
                    assert(i == gravity_interval(hz));
                    assert(1000int / (hz as int) >= 1) by (nonlinear_arith)
                        requires
                            1 <= hz <= 1000,
                    ;
                    while self.gravity_accum >= interval
                        invariant_except_break
                            !broke,
                            self.gravity_accum == acc - j * i,
                        invariant
                            b.wf(),
                            g0 == b.game,
                            start == g0.current,
                            total == g0.board.total(),
                            total + 4 <= i32::MAX,
                            piece_in_range(start),
                            start.y <= i32::MAX - 4,
                            i == interval,
                            i >= 1,
                            acc == b.gravity_accum + dt_ms,
                            acc <= u32::MAX,
                            j >= 0,
                            start.y + j <= i32::MAX - 4,
                            j * i <= acc,
                            fits_down_to(g0.board, start, j),
                            self.game == dropped_game(g0, j),
                            self.history == b.history,
                            self.queue_generator == b.queue_generator,
                            self.static_bag_enabled == b.static_bag_enabled,
                            self.turn_start_snapshot == b.turn_start_snapshot,
                            self.pending_sounds == b.pending_sounds,
                            forall|jj: int|
                                0 <= jj <= acc / i && #[trigger] fits_down_to(g0.board, start, jj)
                                    ==> g0.stats.moves + jj <= u32::MAX,
                        ensures
                            j >= 0,
                            fits_down_to(g0.board, start, j),
                            self.game == dropped_game(g0, j),
                            self.history == b.history,
                            self.queue_generator == b.queue_generator,
                            self.static_bag_enabled == b.static_bag_enabled,
                            self.turn_start_snapshot == b.turn_start_snapshot,
                            self.pending_sounds == b.pending_sounds,
                            !broke ==> self.gravity_accum == acc - j * i && self.gravity_accum < i,
                            broke ==> {
                                &&& (j + 1) * i <= acc
                                &&& !spec_fits(g0.board, shifted(start, 0, j + 1))
                                &&& self.gravity_accum == if acc - (j + 1) * i < i - 1 {
                                    acc - (j + 1) * i
                                } else {
                                    i - 1
                                }
                            },
                        decreases self.gravity_accum,
                    {
                        proof {
                            assert((j + 1) * i == j * i + i) by (nonlinear_arith);
                            assert(j + 1 <= acc / i) by (nonlinear_arith)
                                requires
                                    (j + 1) * i <= acc,
                                    i >= 1,
                            ;
                            if spec_fits(g0.board, shifted(start, 0, j + 1)) {
                                assert(fits_down_to(g0.board, start, j + 1));
                                lemma_fit_above_floor(g0.board, shifted(start, 0, j + 1));
                            }
                            assert(shifted(self.game.current, 0, 1) == shifted(start, 0, j + 1));
                        }
                        self.gravity_accum -= interval;
                        if !try_move(&mut self.game, 0, 1) {
                            self.gravity_accum = if self.gravity_accum < interval - 1 {
                                self.gravity_accum
                            } else {
                                interval - 1
                            };
                            proof {
                                broke = true;
                            }
                            break;
                        }
                        proof {
                            j = j + 1;
                        }
                    }
                    proof {
                        let n = acc / i;
                        if !broke {
                            vstd::arithmetic::div_mod::lemma_fundamental_div_mod_converse(
                                acc,
                                i,
                                j,
                                self.gravity_accum as int,
                            );
                        } else {
                            assert(j + 1 <= acc / i) by (nonlinear_arith)
                                requires
                                    (j + 1) * i <= acc,
                                    i >= 1,
                            ;
                        }
                        assert(0 <= j <= n && fits_down_to(b.game.board, b.game.current, j));
                    }
                }
            },
            None => {},
        }
    }

    /// Advances the game by `dt_ms` milliseconds: the clear flash runs out,
    /// gravity pulls the piece down, and a grounded piece runs its lock
    /// delay (with automatic locking on) and locks when it expires. A lost
    /// game does not change.
    #[verifier::rlimit(50)]
    pub fn tick(&mut self, dt_ms: u32)
        requires
            old(self).wf(),
            !old(self).game.stats.lost ==> piece_in_range(old(self).game.current)
                && old(self).game.current.y <= i32::MAX - 4,
            tick_ready(*old(self), dt_ms as int),
        ensures
            final(self).wf(),
            ticked(*old(self), *final(self), dt_ms as int),
    {
        if self.game.stats.lost {
            return;
        }
        let ghost b = *self;
        advance_flash(&mut self.game.clear_flash, dt_ms);
        let ghost m1 = *self;
        proof {
            assert(gravity_steps(m1.game, m1.gravity_accum as int, dt_ms as int) == gravity_steps(
                b.game,
                b.gravity_accum as int,
                dt_ms as int,
            ));
        }
        self.apply_gravity(dt_ms);
        let ghost m2 = *self;
        let ghost rows = choose|rows: int|
            0 <= rows <= gravity_steps(b.game, b.gravity_accum as int, dt_ms as int)
                && #[trigger] fits_down_to(b.game.board, b.game.current, rows) && m2.game
                == dropped_game(m1.game, rows);
        proof {
            if gravity_on(m1.game) {
            } else {
                assert(fits_down_to(b.game.board, b.game.current, 0));
                assert(m2.game == dropped_game(m1.game, 0));
            }
            if rows >= 1 {
                lemma_fits_down_range(b.game.board, b.game.current, rows);
            }
            assert(shifted(m2.game.current, 0, 1) == shifted(b.game.current, 0, rows + 1));
        }
        proof {
            if !spec_fits(m2.game.board, shifted(m2.game.current, 0, 1)) && m2.game.auto_lock_on_ground
                && lock_timer_after(m2.game, dt_ms as int) >= m2.game.lock_delay.delay_ms {
                assert(drops_by(b.game.board, b.game.current, rows));
                assert(lock_ready(dropped_game(b.game, rows)));
                lemma_lock_ready_same(m2.game, dropped_game(b.game, rows));
            }
        }
        self.check_ground(dt_ms);
        proof {
            assert(tick_steps(b, m1, m2, *self, dt_ms as int));
        }
    }

    /// The ground check of a tick: a piece that can still fall stops its
    /// lock delay; a grounded piece, with automatic locking on, starts or
    /// continues the delay and locks once it has run out.
    fn check_ground(&mut self, dt_ms: u32)
        requires
            old(self).wf(),
            piece_in_range(old(self).game.current),
            old(self).game.current.y <= i32::MAX - 4,
            !spec_fits(old(self).game.board, shifted(old(self).game.current, 0, 1))
                && old(self).game.auto_lock_on_ground && lock_timer_after(
                old(self).game,
                dt_ms as int,
            ) >= old(self).game.lock_delay.delay_ms ==> lock_ready(old(self).game),
        ensures
            final(self).wf(),
            ground_checked(*old(self), *final(self), dt_ms as int),
    {
        if !self.can_move_down() {
            if self.game.auto_lock_on_ground {
                let ghost g = self.game;
                if !self.game.lock_delay.active {
                    self.game.lock_delay.active = true;
                    self.game.lock_delay.timer_ms = 0;
                }
                let next_timer_ms = self.game.lock_delay.timer_ms.saturating_add(dt_ms);
                if next_timer_ms >= self.game.lock_delay.delay_ms {
                    proof {
                        lemma_lock_ready_same(self.game, g);
                    }
                    let ghost m3 = *self;
                    self.push_turn_start_snapshot();
                    let ghost m4 = *self;
                    self.do_lock_and_spawn_inner();
                    proof {
                        assert(turn_start_pushed(m3, m4) && lock_done(m4, *self));
                    }
                } else {
                    self.game.lock_delay.timer_ms = next_timer_ms;
                }
            }
        } else {
            if self.game.lock_delay.active {
                self.game.lock_delay.active = false;
                self.game.lock_delay.timer_ms = 0;
                self.game.lock_delay.moves = 0;
            }
        }
    }

    /// Starts a new round of `mode`, keeping the handling settings (hold
    /// mode, key timings, ghost piece, auto colour, auto lock, mirroring,
    /// clear highlighting): the game restarts as `reset_for_mode` restarts
    /// it with the piece two rows above the visible field, the history is
    /// emptied, a new generator is built from the game's seed (opening with
    /// `static_queue` when the static bag is enabled), and the first piece
    /// spawns.
    pub fn reset(&mut self, mode: GameMode, static_queue: Option<Vec<Tetromino>>)
        requires
            old(self).wf(),
            mode == GameMode::Cheese ==> old(self).game.board.width > 0
                || old(self).game.board.total() == 0,
            mode == GameMode::FourWide ==> old(self).game.board.width >= 4
                && old(self).game.board.total() >= 2,
        ensures
            final(self).wf(),
            restarted(*old(self), *final(self), mode, opt_pieces(static_queue)),
    {
        let ghost b = *self;
        let infinite_hold = self.game.hold.infinite_hold;
        let bag_mode = self.game.queue.mode;
        let das_ms = self.game.gravity.das_ms;
        let arr_ms = self.game.gravity.arr_ms;
        let sdd_ms = self.game.gravity.sdd_ms;
        let sds_ms = self.game.gravity.sds_ms;
        let das_cancel = self.game.gravity.das_cancel;
        let ghost_piece = self.game.ghost_piece;
        let auto_color = self.game.auto_color;
        let auto_lock_on_ground = self.game.auto_lock_on_ground;
        let mirror_queue_with_field = self.game.mirror_queue_with_field;
        let highlight_clear = self.game.highlight_clear;
        reset_for_mode(&mut self.game, mode);
        let ghost r = self.game;
        self.game.hold.infinite_hold = infinite_hold;
        self.game.gravity.arr_ms = arr_ms;
        self.game.gravity.das_ms = das_ms;
        self.game.gravity.sdd_ms = sdd_ms;
        self.game.gravity.sds_ms = sds_ms;
        self.game.gravity.das_cancel = das_cancel;
        self.game.ghost_piece = ghost_piece;
        self.game.auto_color = auto_color;
        self.game.auto_lock_on_ground = auto_lock_on_ground;
        self.game.mirror_queue_with_field = mirror_queue_with_field;
        self.game.highlight_clear = highlight_clear;
        self.game.current.y = (self.game.board.hidden_rows as i32) - 2;
        self.history = History::new(100);
        let static_bag_enabled = self.static_bag_enabled;
        self.queue_generator = Self::create_queue_generator(
            bag_mode,
            self.game.queue.seed,
            static_bag_enabled,
            static_queue,
        );
        self.gravity_accum = 0;
        self.turn_start_snapshot = None;
        self.pending_sounds.clear();
        let ghost m = *self;
        self.spawn_next();
        proof {
            assert(restart_steps(b, r, m, *self, mode, opt_pieces(static_queue)));
        }
    }
}

/// `a` is `b` with the turn's starting snapshot (if any) pushed onto the
/// history.
pub open spec fn turn_start_pushed(b: GameLoop, a: GameLoop) -> bool {
    &&& a == (GameLoop { history: a.history, ..b })
    &&& a.history.capacity == b.history.capacity
    &&& match b.turn_start_snapshot {
        None => a.history == b.history,
        Some(s) => {
            &&& a.history.snapshots@.len() >= 1
            &&& a.history.snapshots@.last().same_as(&s)
            &&& (a.history.snapshots@, a.history.cursor as int) == pushed(
                b.history.snapshots@,
                b.history.cursor as int,
                b.history.capacity as int,
                a.history.snapshots@.last(),
            )
        },
    }
}

/// `a` is `b` with `s` restored: its game, generator and accumulator are
/// back, it is the turn's starting snapshot, no sound is pending, and the
/// history and static-bag setting are unchanged.
pub open spec fn restored(b: GameLoop, a: GameLoop, s: UndoSnapshot) -> bool {
    &&& a.game.same_as(&s.game)
    &&& a.queue_generator.same_as(&s.queue_generator)
    &&& a.gravity_accum == s.gravity_accum
    &&& a.turn_start_snapshot == Some(s)
    &&& a.pending_sounds@.len() == 0
    &&& a.history == b.history
    &&& a.static_bag_enabled == b.static_bag_enabled
}

/// `a` is `b` after an undo that returned `r`: at the start of the history
/// nothing changes; otherwise the cursor steps back and a copy of the
/// snapshot just before it is restored.
pub open spec fn undone(b: GameLoop, a: GameLoop, r: bool) -> bool {
    if b.history.cursor == 0 {
        &&& !r
        &&& a == (GameLoop { history: a.history, ..b })
        &&& a.history.snapshots@ == b.history.snapshots@
        &&& a.history.cursor == b.history.cursor
        &&& a.history.capacity == b.history.capacity
    } else {
        &&& r
        &&& a.history.snapshots@ == b.history.snapshots@
        &&& a.history.cursor == b.history.cursor - 1
        &&& a.history.capacity == b.history.capacity
        &&& a.turn_start_snapshot matches Some(s) && s.same_as(
            &b.history.snapshots@[b.history.cursor - 1],
        ) && restored(GameLoop { history: a.history, ..b }, a, s)
    }
}

/// `a` is `b` after a redo that returned `r`: at the end of the history
/// nothing changes; otherwise a copy of the snapshot at the cursor is
/// restored and the cursor steps forward.
pub open spec fn redone(b: GameLoop, a: GameLoop, r: bool) -> bool {
    if b.history.cursor >= b.history.snapshots@.len() {
        &&& !r
        &&& a == (GameLoop { history: a.history, ..b })
        &&& a.history.snapshots@ == b.history.snapshots@
        &&& a.history.cursor == b.history.cursor
        &&& a.history.capacity == b.history.capacity
    } else {
        &&& r
        &&& a.history.snapshots@ == b.history.snapshots@
        &&& a.history.cursor == b.history.cursor + 1
        &&& a.history.capacity == b.history.capacity
        &&& a.turn_start_snapshot matches Some(s) && s.same_as(
            &b.history.snapshots@[b.history.cursor as int],
        ) && restored(GameLoop { history: a.history, ..b }, a, s)
    }
}

/// The piece drops exactly `k` rows: each of the first `k` rows down fits,
/// the next does not.
pub open spec fn drops_by(board: Board, p: PieceState, k: int) -> bool {
    &&& fits_down_to(board, p, k)
    &&& !spec_fits(board, shifted(p, 0, k + 1))
}

/// `a` is `b` after a successful hold: the game changed as `hold_swap`
/// changes it, the hold sound is queued, the lock delay is reset, and the
/// queue was refilled (the game's seed following the generator's) when it
/// held fewer than seven pieces.
pub open spec fn held(b: GameLoop, a: GameLoop) -> bool {
    let expected = super::hold::after_hold(b.game);
    let q0 = if b.game.hold.piece is None && b.game.queue.visible@.len() > 0 {
        b.game.queue.visible@.drop_first()
    } else {
        b.game.queue.visible@
    };
    &&& a.game.current == expected.current
    &&& a.game.hold == expected.hold
    &&& refilled(b.queue_generator, q0, a.game.queue.visible@)
    &&& a.queue_generator.mode == b.queue_generator.mode
    &&& a.queue_generator.static_sequence@ == b.queue_generator.static_sequence@
    &&& q0.len() >= 7 ==> a.queue_generator == b.queue_generator && a.game.queue.seed
        == b.game.queue.seed
    &&& q0.len() < 7 ==> a.game.queue.seed == a.queue_generator.seed
    &&& a.game.queue.mode == b.game.queue.mode
    &&& a.game == (GameState {
        current: a.game.current,
        hold: a.game.hold,
        queue: a.game.queue,
        lock_delay: b.game.lock_delay.spec_reset(),
        ..b.game
    })
    &&& a.pending_sounds@ == b.pending_sounds@.push(SoundEffect::Hold)
    &&& a.history == b.history
    &&& a.turn_start_snapshot == b.turn_start_snapshot
    &&& a.static_bag_enabled == b.static_bag_enabled
    &&& a.gravity_accum == b.gravity_accum
}

/// The cell at `(x, y)` once the current piece is written into the board.
pub open spec fn frozen_at(g: GameState, x: int, y: int) -> Cell {
    if covers(g.current, x, y) {
        spec_cell_from_piece(g.current.kind)
    } else {
        g.board.at(x, y)
    }
}

/// The rows that are full once the current piece is written into the
/// board.
pub open spec fn frozen_full_rows(g: GameState) -> spec_fn(int) -> bool {
    |r: int| forall|x: int| 0 <= x < g.board.width ==> #[trigger] frozen_at(g, x, r) != Cell::Empty
}

/// How many rows are full once the current piece is written into the
/// board.
pub open spec fn frozen_full_count(g: GameState) -> int {
    count_marked(frozen_full_rows(g), 0, g.board.total())
}

/// What locking the current piece needs: a well formed game, a piece whose
/// shape offsets stay in `i32`, and what clearing the rows it completes
/// needs.
pub open spec fn lock_ready(g: GameState) -> bool {
    &&& g.wf()
    &&& piece_in_range(g.current)
    &&& clear_resolvable(g, frozen_full_count(g))
}

/// `f` is `g` with the current piece written into the board.
pub open spec fn piece_frozen(g: GameState, f: GameState) -> bool {
    &&& f.board.wf()
    &&& f.board.same_shape(&g.board)
    &&& forall|x: int, y: int|
        #![trigger f.board.at(x, y)]
        g.board.spec_in_bounds(x, y) ==> f.board.at(x, y) == frozen_at(g, x, y)
    &&& f == (GameState { board: f.board, ..g })
}

/// The sounds a lock that produced `outcome` queues: a tetris, a T-spin
/// (after the back-to-back sound when the streak goes on), another clear,
/// or a plain fall.
pub open spec fn lock_sounds(outcome: ClearOutcome) -> Seq<SoundEffect> {
    if outcome.lines_cleared == 4 {
        seq![SoundEffect::Tetris]
    } else if outcome.lines_cleared > 0 {
        if outcome.spin_kind != SpinKind::NoSpin {
            if outcome.b2b_after {
                seq![SoundEffect::BackToBack, SoundEffect::TSpin]
            } else {
                seq![SoundEffect::TSpin]
            }
        } else {
            seq![SoundEffect::Clear]
        }
    } else {
        seq![SoundEffect::Fall]
    }
}

/// `m` is `b` after the lock's clear resolved into `resolved`: the lock
/// delay is reset and, unless the game is lost, the cleared rows flash
/// (when `highlight_clear` is on) and the lock's sounds are queued.
pub open spec fn settled_after_lock(
    b: GameLoop,
    resolved: GameState,
    outcome: ClearOutcome,
    m: GameLoop,
) -> bool {
    let goes_on = !resolved.stats.lost;
    &&& m.game == (GameState {
        lock_delay: resolved.lock_delay.spec_reset(),
        clear_flash: m.game.clear_flash,
        ..resolved
    })
    &&& if goes_on && outcome.lines_cleared > 0 && resolved.highlight_clear {
        &&& m.game.clear_flash.active
        &&& m.game.clear_flash.lines@ == outcome.cleared_lines@
        &&& m.game.clear_flash.timer_ms == 0
        &&& m.game.clear_flash.duration_ms == resolved.clear_flash.duration_ms
    } else {
        m.game.clear_flash == resolved.clear_flash
    }
    &&& m.pending_sounds@ == if goes_on {
        b.pending_sounds@ + lock_sounds(outcome)
    } else {
        b.pending_sounds@
    }
    &&& m.history == b.history
    &&& m.queue_generator == b.queue_generator
    &&& m.static_bag_enabled == b.static_bag_enabled
    &&& m.gravity_accum == b.gravity_accum
    &&& m.turn_start_snapshot == b.turn_start_snapshot
}

/// The steps of a lock from `b` to `a`: the piece is frozen, the clear is
/// resolved with `outcome`, the game settles into `m`, and unless it is lost
/// the next piece spawns.
pub open spec fn lock_steps(
    b: GameLoop,
    frozen: GameState,
    resolved: GameState,
    outcome: ClearOutcome,
    m: GameLoop,
    a: GameLoop,
) -> bool {
    &&& piece_frozen(b.game, frozen)
    &&& clear_resolved(frozen, resolved, outcome)
    &&& settled_after_lock(b, resolved, outcome, m)
    &&& if m.game.stats.lost {
        a == m
    } else {
        spawned(m, a)
    }
}

/// `a` is `b` after the current piece locked.
pub open spec fn lock_done(b: GameLoop, a: GameLoop) -> bool {
    exists|frozen: GameState, resolved: GameState, outcome: ClearOutcome, m: GameLoop|
        #[trigger] lock_steps(b, frozen, resolved, outcome, m, a)
}

/// `a` is `b` after the turn's starting snapshot was pushed onto the
/// history and the piece locked.
pub open spec fn locked_after_turn_start(b: GameLoop, a: GameLoop) -> bool {
    exists|m: GameLoop| #[trigger] turn_start_pushed(b, m) && lock_done(m, a)
}

/// `a` is `b` with the game replaced by `game` and `sound` queued.
pub open spec fn with_game_and_sound(b: GameLoop, a: GameLoop, game: GameState, sound: SoundEffect) -> bool {
    &&& a.game == game
    &&& a.pending_sounds@ == b.pending_sounds@.push(sound)
    &&& a.history == b.history
    &&& a.queue_generator == b.queue_generator
    &&& a.static_bag_enabled == b.static_bag_enabled
    &&& a.gravity_accum == b.gravity_accum
    &&& a.turn_start_snapshot == b.turn_start_snapshot
}

/// A move or turn while the lock delay runs restarts its timer and counts
/// one more move.
pub open spec fn delay_counted(g: GameState) -> GameState {
    if g.lock_delay.active {
        GameState {
            lock_delay: LockDelayState {
                timer_ms: 0,
                moves: (g.lock_delay.moves + 1) as u8,
                ..g.lock_delay
            },
            ..g
        }
    } else {
        g
    }
}

/// Whether a move or turn that reached `g` (lock delay already counted)
/// used up the moves allowed while grounded.
pub open spec fn out_of_moves(g: GameState) -> bool {
    g.lock_delay.active && g.lock_delay.moves >= g.lock_delay.max_moves
}

/// The game after a successful move by `(dx, dy)`, lock delay counted.
pub open spec fn moved_game(g: GameState, dx: int, dy: int) -> GameState {
    delay_counted(
        GameState {
            current: shifted(g.current, dx, dy),
            spin: SpinState { last_kick_index: None, ..g.spin },
            stats: Stats { moves: (g.stats.moves + 1) as u32, ..g.stats },
            ..g
        },
    )
}

/// `a` is `b` after a successful move or turn that reached `game` (lock
/// delay counted) with `sound`: when the moves allowed while grounded are
/// used up, the piece then locks.
pub open spec fn acted(b: GameLoop, a: GameLoop, game: GameState, sound: SoundEffect) -> bool {
    if out_of_moves(game) {
        exists|m: GameLoop|
            #[trigger] with_game_and_sound(b, m, game, sound) && locked_after_turn_start(m, a)
    } else {
        with_game_and_sound(b, a, game, sound)
    }
}

/// The game after the piece dropped `k` rows.
pub open spec fn dropped_game(g: GameState, k: int) -> GameState {
    if k == 0 {
        g
    } else {
        GameState {
            current: shifted(g.current, 0, k),
            spin: SpinState { last_kick_index: None, ..g.spin },
            stats: Stats { moves: (g.stats.moves + k) as u32, ..g.stats },
            ..g
        }
    }
}

/// Every row from one to `j` rows further down fits the piece.
pub open spec fn fits_down_to(board: Board, p: PieceState, j: int) -> bool {
    forall|i: int| 1 <= i <= j ==> #[trigger] spec_fits(board, shifted(p, 0, i))
}

/// The steps of a hard drop from `b` to `a`: the turn's starting snapshot
/// is pushed (giving `m`), the lock delay is reset, the hard-drop sound is
/// queued and the piece falls `k` rows (giving `m2`), then it locks.
pub open spec fn drop_steps(b: GameLoop, m: GameLoop, m2: GameLoop, k: int, a: GameLoop) -> bool {
    &&& turn_start_pushed(b, m)
    &&& k >= 0
    &&& drops_by(b.game.board, b.game.current, k)
    &&& with_game_and_sound(
        m,
        m2,
        GameState { lock_delay: b.game.lock_delay.spec_reset(), ..dropped_game(b.game, k) },
        SoundEffect::HardDrop,
    )
    &&& lock_done(m2, a)
}

/// `a` is `b` after a hard drop.
pub open spec fn hard_dropped(b: GameLoop, a: GameLoop) -> bool {
    exists|m: GameLoop, m2: GameLoop, k: int| #[trigger] drop_steps(b, m, m2, k, a)
}

/// Freezing the current piece completes exactly the rows counted by
/// `frozen_full_count`.
proof fn lemma_frozen_count(g: GameState, f: GameState)
    requires
        g.wf(),
        piece_frozen(g, f),
    ensures
        full_row_count(f.board) == frozen_full_count(g),
{
    assert forall|r: int| 0 <= r < g.board.total() implies #[trigger] full_rows(f.board)(r) == frozen_full_rows(
        g,
    )(r) by {
        if full_rows(f.board)(r) {
            assert forall|x: int| 0 <= x < g.board.width implies #[trigger] frozen_at(g, x, r)
                != Cell::Empty by {
                assert(f.board.at(x, r) != Cell::Empty);
            }
        }
        if frozen_full_rows(g)(r) {
            assert forall|x: int| 0 <= x < f.board.width implies #[trigger] f.board.at(x, r)
                != Cell::Empty by {
                assert(frozen_at(g, x, r) != Cell::Empty);
            }
        }
    }
    super::lines::lemma_count_marked_agree(full_rows(f.board), frozen_full_rows(g), 0, g.board.total());
}

/// Whether a piece can lock does not depend on the lock delay's state.
proof fn lemma_lock_ready_ignores_delay(g: GameState, delay: LockDelayState)
    ensures
        lock_ready(GameState { lock_delay: delay, ..g }) == lock_ready(g),
{
    let da = GameState { lock_delay: delay, ..g };
    assert forall|r: int| #[trigger] frozen_full_rows(da)(r) == frozen_full_rows(g)(r) by {
        if frozen_full_rows(da)(r) {
            assert forall|x: int| 0 <= x < g.board.width implies #[trigger] frozen_at(g, x, r)
                != Cell::Empty by {
                assert(frozen_at(da, x, r) != Cell::Empty);
            }
        }
        if frozen_full_rows(g)(r) {
            assert forall|x: int| 0 <= x < da.board.width implies #[trigger] frozen_at(da, x, r)
                != Cell::Empty by {
                assert(frozen_at(g, x, r) != Cell::Empty);
            }
        }
    }
    assert(frozen_full_rows(da) =~= frozen_full_rows(g));
}

/// Moves the piece down one row at a time until it can go no further.
fn drop_to_floor(game: &mut GameState)
    requires
        old(game).board.wf(),
        old(game).board.total() + 4 <= i32::MAX,
        piece_in_range(old(game).current),
        old(game).current.y <= i32::MAX - 4,
        forall|j: int|
            j >= 0 && #[trigger] fits_down_to(old(game).board, old(game).current, j)
                ==> old(game).stats.moves + j <= u32::MAX,
    ensures
        exists|k: int|
            k >= 0 && #[trigger] drops_by(old(game).board, old(game).current, k) && *final(game)
                == dropped_game(*old(game), k),
{
    let ghost g0 = *game;
    let ghost start = g0.current;
    let ghost total = g0.board.total();
    let ghost bound: int = if start.y > total {
        start.y as int
    } else {
        total
    };
    let ghost mut j: int = 0;
    loop
        invariant
            g0 == *old(game),
            start == g0.current,
            total == g0.board.total(),
            g0.board.wf(),
            total + 4 <= i32::MAX,
            start.y <= i32::MAX - 4,
            piece_in_range(start),
            start.y <= bound,
            total <= bound,
            bound <= i32::MAX - 4,
            j >= 0,
            start.y + j <= bound,
            fits_down_to(g0.board, start, j),
            *game == dropped_game(g0, j),
            forall|i: int|
                i >= 0 && #[trigger] fits_down_to(g0.board, start, i) ==> g0.stats.moves + i
                    <= u32::MAX,
        ensures
            j >= 0,
            drops_by(g0.board, start, j),
            *game == dropped_game(g0, j),
        decreases bound - (start.y + j),
    {
        proof {
            if start.y + j + 1 >= total {
                lemma_below_floor_does_not_fit(g0.board, shifted(start, 0, j + 1));
            }
            if spec_fits(g0.board, shifted(start, 0, j + 1)) {
                assert(fits_down_to(g0.board, start, j + 1));
            }
            assert(shifted(game.current, 0, 1) == shifted(start, 0, j + 1));
        }
        let moved = try_move(game, 0, 1);
        if !moved {
            break;
        }
        proof {
            j = j + 1;
        }
    }
    assert(drops_by(g0.board, g0.current, j));
}

/// `a` is the flash `b` after `dt` milliseconds: a running flash ends (and
/// forgets its rows) once its duration is reached, else its timer grows.
pub open spec fn flash_advanced(b: ClearFlashState, a: ClearFlashState, dt: int) -> bool {
    if b.active {
        if b.timer_ms + dt >= b.duration_ms {
            &&& !a.active
            &&& a.lines@.len() == 0
            &&& a.timer_ms == 0
            &&& a.duration_ms == b.duration_ms
        } else {
            a == ClearFlashState { timer_ms: (b.timer_ms + dt) as u32, ..b }
        }
    } else {
        a == b
    }
}

/// Whether gravity pulls the piece down at all.
pub open spec fn gravity_on(g: GameState) -> bool {
    match g.gravity.gravity_hz {
        Some(hz) => hz > 0,
        None => false,
    }
}

/// Milliseconds per gravity step at `hz` rows per second.
pub open spec fn gravity_interval(hz: u32) -> int {
    1000int / (hz as int)
}

/// How many gravity steps are due once `dt` more milliseconds have
/// accumulated on top of `accum`: none without gravity.
pub open spec fn gravity_steps(g: GameState, accum: int, dt: int) -> int {
    match g.gravity.gravity_hz {
        Some(hz) => if hz > 0 {
            (accum + dt) / gravity_interval(hz)
        } else {
            0
        },
        None => 0,
    }
}

/// `a` is `b` after gravity ran for `dt` milliseconds: the piece fell one
/// row per due step until it could fall no further; the accumulator keeps
/// the time not yet spent, and at most one step short of the next once the
/// piece has landed.
pub open spec fn gravity_applied(b: GameLoop, a: GameLoop, dt: int) -> bool {
    &&& a.history == b.history
    &&& a.queue_generator == b.queue_generator
    &&& a.static_bag_enabled == b.static_bag_enabled
    &&& a.turn_start_snapshot == b.turn_start_snapshot
    &&& a.pending_sounds == b.pending_sounds
    &&& match b.game.gravity.gravity_hz {
        Some(hz) => if hz > 0 {
            let i = gravity_interval(hz);
            let acc = b.gravity_accum + dt;
            let n = acc / i;
            exists|rows: int|
                0 <= rows <= n && #[trigger] fits_down_to(b.game.board, b.game.current, rows)
                    && a.game == dropped_game(b.game, rows) && if rows == n {
                    a.gravity_accum == acc % i
                } else {
                    &&& !spec_fits(b.game.board, shifted(b.game.current, 0, rows + 1))
                    &&& a.gravity_accum == if acc - (rows + 1) * i < i - 1 {
                        acc - (rows + 1) * i
                    } else {
                        i - 1
                    }
                }
        } else {
            a.game == b.game && a.gravity_accum == b.gravity_accum
        },
        None => a.game == b.game && a.gravity_accum == b.gravity_accum,
    }
}

/// The lock timer after `dt` milliseconds on the ground, starting from zero
/// when the delay was not running, saturating at `u32::MAX`.
pub open spec fn lock_timer_after(g: GameState, dt: int) -> int {
    let t = (if g.lock_delay.active {
        g.lock_delay.timer_ms as int
    } else {
        0int
    }) + dt;
    if t > u32::MAX {
        u32::MAX as int
    } else {
        t
    }
}

/// `a` is `m` after the ground check of a tick of `dt` milliseconds: a piece
/// that can still fall stops its lock delay; a grounded piece (with
/// automatic locking on) starts or continues the delay and locks once it
/// has run out.
pub open spec fn ground_checked(m: GameLoop, a: GameLoop, dt: int) -> bool {
    let g = m.game;
    let ld = g.lock_delay;
    if spec_fits(g.board, shifted(g.current, 0, 1)) {
        a == (GameLoop {
            game: if ld.active {
                GameState { lock_delay: ld.spec_reset(), ..g }
            } else {
                g
            },
            ..m
        })
    } else if !g.auto_lock_on_ground {
        a == m
    } else {
        let next = lock_timer_after(g, dt);
        let started = LockDelayState {
            active: true,
            timer_ms: if ld.active {
                ld.timer_ms
            } else {
                0
            },
            ..ld
        };
        if next >= ld.delay_ms {
            locked_after_turn_start(GameLoop { game: GameState { lock_delay: started, ..g }, ..m }, a)
        } else {
            a == (GameLoop {
                game: GameState {
                    lock_delay: LockDelayState { timer_ms: next as u32, ..started },
                    ..g
                },
                ..m
            })
        }
    }
}

/// `a` is `b` after a tick of `dt` milliseconds: nothing happens once the
/// game is lost; otherwise the flash advances, gravity runs, and the ground
/// check follows.
pub open spec fn ticked(b: GameLoop, a: GameLoop, dt: int) -> bool {
    if b.game.stats.lost {
        a == b
    } else {
        exists|m1: GameLoop, m2: GameLoop| #[trigger] tick_steps(b, m1, m2, a, dt)
    }
}

/// The steps of a tick: the flash advances (giving `m1`), gravity runs
/// (giving `m2`), then the ground check.
pub open spec fn tick_steps(b: GameLoop, m1: GameLoop, m2: GameLoop, a: GameLoop, dt: int) -> bool {
    &&& flash_advanced(b.game.clear_flash, m1.game.clear_flash, dt)
    &&& m1 == (GameLoop {
        game: GameState { clear_flash: m1.game.clear_flash, ..b.game },
        ..b
    })
    &&& gravity_applied(m1, m2, dt)
    &&& ground_checked(m2, a, dt)
}

/// What a tick of `dt` milliseconds needs: counters that cannot overflow
/// while the flash and gravity advance, gravity of at most 1000 rows per
/// second, a piece that stays in `i32` range as it falls, and, when the
/// piece lands and its lock delay runs out, what locking it needs.
pub open spec fn tick_ready(l: GameLoop, dt: int) -> bool {
    let g = l.game;
    let steps = gravity_steps(g, l.gravity_accum as int, dt);
    !g.stats.lost ==> {
        &&& g.clear_flash.active ==> g.clear_flash.timer_ms + dt <= u32::MAX
        &&& g.gravity.gravity_hz matches Some(hz) ==> hz <= 1000
        &&& gravity_on(g) ==> l.gravity_accum + dt <= u32::MAX
        &&& forall|j: int|
            0 <= j <= steps && #[trigger] fits_down_to(g.board, g.current, j) ==> g.stats.moves + j
                <= u32::MAX
        &&& forall|k: int|
            0 <= k <= steps && #[trigger] drops_by(g.board, g.current, k) && g.auto_lock_on_ground
                && lock_timer_after(g, dt) >= g.lock_delay.delay_ms ==> lock_ready(
                dropped_game(g, k),
            )
    }
}

/// Locking does not depend on the lock delay or the clear flash.
proof fn lemma_lock_ready_same(a: GameState, b: GameState)
    requires
        a == (GameState { lock_delay: a.lock_delay, clear_flash: a.clear_flash, ..b }),
    ensures
        lock_ready(a) == lock_ready(b),
{
    assert forall|r: int| #[trigger] frozen_full_rows(a)(r) == frozen_full_rows(b)(r) by {
        if frozen_full_rows(a)(r) {
            assert forall|x: int| 0 <= x < b.board.width implies #[trigger] frozen_at(b, x, r)
                != Cell::Empty by {
                assert(frozen_at(a, x, r) != Cell::Empty);
            }
        }
        if frozen_full_rows(b)(r) {
            assert forall|x: int| 0 <= x < a.board.width implies #[trigger] frozen_at(a, x, r)
                != Cell::Empty by {
                assert(frozen_at(b, x, r) != Cell::Empty);
            }
        }
    }
    assert(frozen_full_rows(a) =~= frozen_full_rows(b));
}

/// A piece that fits has its lowest rows above the floor.
proof fn lemma_fit_above_floor(board: Board, p: PieceState)
    requires
        spec_fits(board, p),
    ensures
        p.y + 1 < board.total(),
{
    if p.y + 1 >= board.total() {
        lemma_below_floor_does_not_fit(board, p);
    }
}

/// While a piece keeps fitting as it falls, its rows stay above the floor.
pub proof fn lemma_fits_down_range(board: Board, p: PieceState, j: int)
    requires
        j >= 1,
        fits_down_to(board, p, j),
        p.y <= i32::MAX - 4,
        board.total() + 4 <= i32::MAX,
    ensures
        p.y + j + 1 < board.total(),
    decreases j,
{
    if j > 1 {
        assert(fits_down_to(board, p, j - 1));
        lemma_fits_down_range(board, p, j - 1);
    }
    assert(spec_fits(board, shifted(p, 0, j)));
    lemma_fit_above_floor(board, shifted(p, 0, j));
}

/// Runs the clear flash's timer for `dt_ms` milliseconds.
fn advance_flash(flash: &mut ClearFlashState, dt_ms: u32)
    requires
        old(flash).active ==> old(flash).timer_ms + dt_ms <= u32::MAX,
    ensures
        flash_advanced(*old(flash), *final(flash), dt_ms as int),
{
    if flash.active {
        flash.timer_ms += dt_ms;
        if flash.timer_ms >= flash.duration_ms {
            flash.active = false;
            flash.lines.clear();
            flash.timer_ms = 0;
        }
    }
}

/// The steps of a restart from `b` to `a` in `mode`: the game restarts into
/// `r`, the handling settings of `b` are put back and the piece placed two
/// rows above the visible field (giving `m`, with an empty history, a fresh
/// generator, no pending sound and no turn snapshot), then the first piece
/// spawns.
pub open spec fn restart_steps(
    b: GameLoop,
    r: GameState,
    m: GameLoop,
    a: GameLoop,
    mode: GameMode,
    static_queue: Option<Seq<Tetromino>>,
) -> bool {
    &&& reset_as(b.game, r, mode)
    &&& m.game == (GameState {
        hold: HoldState { infinite_hold: b.game.hold.infinite_hold, ..r.hold },
        gravity: GravityState { gravity_hz: r.gravity.gravity_hz, ..b.game.gravity },
        ghost_piece: b.game.ghost_piece,
        auto_color: b.game.auto_color,
        auto_lock_on_ground: b.game.auto_lock_on_ground,
        mirror_queue_with_field: b.game.mirror_queue_with_field,
        highlight_clear: b.game.highlight_clear,
        current: PieceState { y: (b.game.board.hidden_rows - 2) as i32, ..r.current },
        ..r
    })
    &&& m.history.snapshots@.len() == 0
    &&& m.history.cursor == 0
    &&& m.history.capacity == 100
    &&& generator_for(
        m.queue_generator,
        b.game.queue.mode,
        r.queue.seed,
        b.static_bag_enabled,
        static_queue,
    )
    &&& m.static_bag_enabled == b.static_bag_enabled
    &&& m.gravity_accum == 0
    &&& m.turn_start_snapshot is None
    &&& m.pending_sounds@.len() == 0
    &&& spawned(m, a)
}

/// `a` is `b` restarted in `mode`.
pub open spec fn restarted(
    b: GameLoop,
    a: GameLoop,
    mode: GameMode,
    static_queue: Option<Seq<Tetromino>>,
) -> bool {
    exists|r: GameState, m: GameLoop| #[trigger] restart_steps(b, r, m, a, mode, static_queue)
}

/// Pushing a snapshot and undoing at once gives back the game, generator
/// and gravity accumulator that were pushed.
pub proof fn law_undo_after_push_snapshot(l0: GameLoop, l1: GameLoop, l2: GameLoop, r: bool)
    requires
        l0.wf(),
        snapshot_pushed(l0, l1),
        undone(l1, l2, r),
    ensures
        r,
        l2.game.same_as(&l0.game),
        l2.queue_generator.same_as(&l0.queue_generator),
        l2.gravity_accum == l0.gravity_accum,
        l2.history.cursor == l1.history.cursor - 1,
{
    let s = l1.history.snapshots@.last();
    super::history::law_push_then_undo(
        l0.history.snapshots@,
        l0.history.cursor as int,
        l0.history.capacity as int,
        s,
    );
}

/// Redoing right after an undo gives back the state of the snapshot that
/// followed the undone one, and the cursor returns where it was.
pub proof fn law_redo_after_undo(l0: GameLoop, l1: GameLoop, l2: GameLoop, r1: bool, r2: bool)
    requires
        l0.wf(),
        l0.history.cursor > 0,
        undone(l0, l1, r1),
        redone(l1, l2, r2),
    ensures
        r1,
        r2,
        l2.history.cursor == l0.history.cursor,
        l2.history.snapshots@ == l0.history.snapshots@,
        l2.game.same_as(&l0.history.snapshots@[l0.history.cursor - 1].game),
{
}

/// `a` is `b` with the current state pushed onto the history.
pub open spec fn snapshot_pushed(b: GameLoop, a: GameLoop) -> bool {
    &&& a.history.capacity == b.history.capacity
    &&& a.history.snapshots@.len() >= 1
    &&& a.history.snapshots@.last().game.same_as(&b.game)
    &&& a.history.snapshots@.last().queue_generator.same_as(&b.queue_generator)
    &&& a.history.snapshots@.last().gravity_accum == b.gravity_accum
    &&& (a.history.snapshots@, a.history.cursor as int) == pushed(
        b.history.snapshots@,
        b.history.cursor as int,
        b.history.capacity as int,
        a.history.snapshots@.last(),
    )
    &&& a == (GameLoop { history: a.history, ..b })
}

/// Whether a piece could lock depends only on the board, the overlay, the
/// piece, the mode, the line and combo counts and the garbage hole size.
pub proof fn lemma_lock_ready_depends(a: GameState, b: GameState)
    requires
        a.board == b.board,
        a.highlights == b.highlights,
        a.current == b.current,
        a.mode == b.mode,
        a.stats.combo == b.stats.combo,
        a.stats.lines == b.stats.lines,
        a.garbage_hole_size == b.garbage_hole_size,
    ensures
        lock_ready(a) == lock_ready(b),
{
    assert forall|r: int| #[trigger] frozen_full_rows(a)(r) == frozen_full_rows(b)(r) by {
        if frozen_full_rows(a)(r) {
            assert forall|x: int| 0 <= x < b.board.width implies #[trigger] frozen_at(b, x, r)
                != Cell::Empty by {
                assert(frozen_at(a, x, r) != Cell::Empty);
            }
        }
        if frozen_full_rows(b)(r) {
            assert forall|x: int| 0 <= x < a.board.width implies #[trigger] frozen_at(a, x, r)
                != Cell::Empty by {
                assert(frozen_at(b, x, r) != Cell::Empty);
            }
        }
    }
    assert(frozen_full_rows(a) =~= frozen_full_rows(b));
}

/// A piece that drops `k` rows fits no lower than `k` rows down.
pub proof fn lemma_drop_bound(board: Board, p: PieceState, k: int, j: int)
    requires
        drops_by(board, p, k),
        k >= 0,
        j >= 0,
        fits_down_to(board, p, j),
    ensures
        j <= k,
{
    if j > k {
        assert(spec_fits(board, shifted(p, 0, k + 1)));
    }
}

/// Whether the current piece, standing at `piece`, could lock: see
/// `lock_ready`.
pub fn lock_ready_at(game: &GameState, piece: PieceState) -> (r: bool)
    requires
        game.wf(),
    ensures
        r == lock_ready(GameState { current: piece, ..*game }),
{
    let ghost g = GameState { current: piece, ..*game };
    if !(piece.x <= i32::MAX - 3 && piece.y <= i32::MAX - 3) {
        return false;
    }
    let mut board = game.board.duplicate();
    board.freeze_piece(piece, piece.kind);
    let rows = collect_full_rows(&board);
    let n = rows.len();
    proof {
        let f = GameState { board: board, ..g };
        assert forall|x: int, y: int|
            #![trigger f.board.at(x, y)]
            g.board.spec_in_bounds(x, y) implies f.board.at(x, y) == frozen_at(g, x, y) by {
        }
        assert(piece_frozen(g, f));
        lemma_frozen_count(g, f);
        lemma_marked_rows_len(full_rows(board), 0, board.total());
        assert(rows@.map_values(|r: usize| r as int).len() == rows@.len());
        assert(n == frozen_full_count(g));
    }
    let total = game.board.total_height();
    let width = game.board.width;
    if !(width > 0 || total == 0) || n > 255 {
        return false;
    }
    if n > 0 && game.stats.combo == u32::MAX {
        return false;
    }
    if (game.stats.lines as u64) + (n as u64) > u32::MAX as u64 {
        return false;
    }
    if game.mode == GameMode::Cheese && n == 0 {
        if width < 2 || total < 1 {
            return false;
        }
        let visible = game.board.visible_height;
        match visible.checked_mul(3) {
            None => return false,
            Some(triple) => match total.checked_add(game.garbage_hole_size) {
                None => return false,
                Some(sum) => {
                    if sum.checked_add(triple).is_none() {
                        return false;
                    }
                },
            },
        }
    }
    if game.mode == GameMode::FourWide && n > 0 {
        if width < 4 || n >= total {
            return false;
        }
    }
    true
}

} // verus!
