use vstd::prelude::*;

use crate::control::actions::AppAction;
use crate::game::board::piece_in_range;
use crate::game::game_loop::{
    GameLoop, SoundEffect, acted, delay_counted, drops_by, dropped_game, fits_down_to,
    hard_dropped, held, lemma_drop_bound, lemma_fits_down_range, lemma_lock_ready_depends, lock_ready, lock_ready_at,
    moved_game, opt_pieces, out_of_moves, redone, restarted, undone,
};
use crate::game::game_state::{GameMode, copy_vec};
use crate::game::hold::hold_locked;
use crate::game::input::{HorizontalDirection, InputRepeatState, RepeatKeyState};
use crate::game::piece::{PieceState, RotationCommand, Tetromino};
use crate::game::rotation::{
    after_placement, fits, kick_in_range, rotation_outcome, rotation_result, shifted, spec_fits,
};

verus! {

/// Turns the player's input into moves of the game: it keeps which keys are
/// held and when they repeat.
pub struct GameController {
    pub repeat_state: InputRepeatState,
}

impl Default for GameController {
    fn default() -> (r: Self)
        ensures
            r.repeat_state == InputRepeatState::spec_default(),
    {
        GameController { repeat_state: InputRepeatState::default() }
    }
}

/// The mode after `mode` when cycling through the training modes.
pub open spec fn next_mode(mode: GameMode) -> GameMode {
    match mode {
        GameMode::Training => GameMode::Cheese,
        GameMode::Cheese => GameMode::FourWide,
        GameMode::FourWide => GameMode::PerfectClear,
        GameMode::PerfectClear => GameMode::Master,
        GameMode::Master | GameMode::Edit => GameMode::Training,
    }
}

impl GameController {
    /// Forgets every held key.
    pub fn clear_repeat_state(&mut self)
        ensures
            final(self).repeat_state == InputRepeatState::spec_default(),
    {
        self.repeat_state.clear();
    }

    /// The mode after `mode` when cycling: training, cheese, four-wide,
    /// perfect clear, master, then training again.
    pub fn next_round_robin_mode(mode: GameMode) -> (r: GameMode)
        ensures
            r == next_mode(mode),
    {
        match mode {
            GameMode::Training => GameMode::Cheese,
            GameMode::Cheese => GameMode::FourWide,
            GameMode::FourWide => GameMode::PerfectClear,
            GameMode::PerfectClear => GameMode::Master,
            GameMode::Master | GameMode::Edit => GameMode::Training,
        }
    }
}

/// Whether play goes on: the game is neither paused nor lost.
pub open spec fn gameplay_active(l: GameLoop, paused: bool) -> bool {
    !paused && !l.game.stats.lost
}

/// Whether the game takes moves now: it is neither paused nor lost.
pub fn is_gameplay_active(game_loop: &GameLoop, paused: bool) -> (r: bool)
    ensures
        r == gameplay_active(*game_loop, paused),
{
    if paused {
        return false;
    }
    !game_loop.game.stats.lost
}

/// What moving the piece by `(dx, dy)` needs: coordinates that stay in
/// range and, where the piece fits there, counters that do not overflow and
/// a lock that can be carried out should the move use up the lock delay.
pub open spec fn move_allowed(l: GameLoop, dx: int, dy: int) -> bool {
    let g = l.game;
    let p = shifted(g.current, dx, dy);
    &&& piece_in_range(p)
    &&& i32::MIN <= g.current.x + dx <= i32::MAX
    &&& i32::MIN <= g.current.y + dy <= i32::MAX
    &&& spec_fits(g.board, p) ==> {
        &&& g.stats.moves < u32::MAX
        &&& g.lock_delay.active ==> g.lock_delay.moves < u8::MAX
        &&& out_of_moves(moved_game(g, dx, dy)) ==> lock_ready(moved_game(g, dx, dy))
    }
}

/// `a` is `b` after the piece was moved by `(dx, dy)` where it fits, with
/// one more move sound queued for the key press.
pub open spec fn moved_with_sound(b: GameLoop, a: GameLoop, dx: int, dy: int) -> bool {
    if spec_fits(b.game.board, shifted(b.game.current, dx, dy)) {
        exists|m: GameLoop|
            #[trigger] acted(b, m, moved_game(b.game, dx, dy), SoundEffect::Move) && a == (GameLoop {
                pending_sounds: a.pending_sounds,
                ..m
            }) && a.pending_sounds@ == m.pending_sounds@.push(SoundEffect::Move)
    } else {
        a == b
    }
}

/// What turning the piece with `command` needs: see `move_allowed`.
pub open spec fn rotate_allowed(l: GameLoop, command: RotationCommand) -> bool {
    let g = l.game;
    &&& kick_in_range(g.current)
    &&& rotation_result(g.board, g.current, command) matches Some((p, k)) ==> {
        &&& g.stats.moves < u32::MAX
        &&& g.lock_delay.active ==> g.lock_delay.moves < u8::MAX
        &&& out_of_moves(delay_counted(after_placement(g, p, k))) ==> lock_ready(
            delay_counted(after_placement(g, p, k)),
        )
    }
}

/// `a` is `b` after the piece was turned with `command` where it can turn.
pub open spec fn rotated(b: GameLoop, a: GameLoop, command: RotationCommand) -> bool {
    match rotation_result(b.game.board, b.game.current, command) {
        None => a == b,
        Some((p, k)) => acted(
            b,
            a,
            delay_counted(after_placement(b.game, p, k)),
            if k is Some {
                SoundEffect::Kick
            } else {
                SoundEffect::Rotate
            },
        ),
    }
}

/// What a hard drop needs: coordinates in range, a move count that does not
/// overflow, and a lock that can be carried out where the piece lands.
pub open spec fn drop_allowed(l: GameLoop) -> bool {
    let g = l.game;
    &&& piece_in_range(g.current)
    &&& g.current.y <= i32::MAX - 4
    &&& forall|j: int|
        j >= 0 && #[trigger] fits_down_to(g.board, g.current, j) ==> g.stats.moves + j <= u32::MAX
    &&& forall|k: int|
        k >= 0 && #[trigger] drops_by(g.board, g.current, k) ==> lock_ready(dropped_game(g, k))
}

/// What starting `mode` on the board needs: cheese mode a board with
/// columns, four-wide mode one at least four wide and two high.
pub open spec fn reset_allowed(l: GameLoop, mode: GameMode) -> bool {
    &&& mode == GameMode::Cheese ==> l.game.board.width > 0 || l.game.board.total() == 0
    &&& mode == GameMode::FourWide ==> l.game.board.width >= 4 && l.game.board.total() >= 2
}

/// `a` is `b` restarted in `mode` where that mode can start, else `b`.
pub open spec fn reset_by(b: GameLoop, a: GameLoop, mode: GameMode, queue: Option<Seq<Tetromino>>) -> bool {
    if reset_allowed(b, mode) {
        restarted(b, a, mode, queue)
    } else {
        a == b
    }
}

/// What releasing a shift key needs: a repeat time that does not overflow.
pub open spec fn release_allowed(s: InputRepeatState, direction: HorizontalDirection, das_ms: u32) -> bool {
    s.active_horizontal == Some(direction) && s.key(direction.spec_opposite()).pressed ==> s.key(
        direction,
    ).pressed_at + das_ms <= u64::MAX
}

/// The key state once a shift key goes down at `now`, where the repeat
/// time does not overflow.
pub open spec fn after_shift_press(
    s: InputRepeatState,
    direction: HorizontalDirection,
    now: u64,
    l: GameLoop,
) -> InputRepeatState {
    if now + l.game.gravity.das_ms <= u64::MAX {
        s.spec_press_horizontal(direction, now, l.game.gravity.das_ms, l.game.gravity.das_cancel)
    } else {
        s
    }
}

/// What an action does to the held keys (`c0` to `c1`), the game loop (`l0`
/// to `l1`) and the pause flag (`p0` to `p1`); `queue` is the fixed piece
/// list a restart uses. Gameplay actions act only while play goes on, and
/// one whose needs (see `move_allowed` and its kin) are not met leaves the
/// game as it is.
pub open spec fn dispatched(
    c0: InputRepeatState,
    c1: InputRepeatState,
    l0: GameLoop,
    l1: GameLoop,
    p0: bool,
    p1: bool,
    queue: Option<Seq<Tetromino>>,
    action: AppAction,
) -> bool {
    let active = gameplay_active(l0, p0);
    let grav = l0.game.gravity;
    match action {
        AppAction::TogglePause => p1 == !p0 && c1 == InputRepeatState::spec_default() && l1 == l0,
        AppAction::Reset(mode) => !p1 && c1 == InputRepeatState::spec_default() && reset_by(
            l0,
            l1,
            mode,
            queue,
        ),
        AppAction::ResetCurrent => !p1 && c1 == InputRepeatState::spec_default() && reset_by(
            l0,
            l1,
            l0.game.mode,
            queue,
        ),
        AppAction::CycleMode => !p1 && c1 == InputRepeatState::spec_default() && reset_by(
            l0,
            l1,
            next_mode(l0.game.mode),
            queue,
        ),
        AppAction::MoveLeftPress(now) => p1 == p0 && if !active {
            l1 == l0 && c1 == c0
        } else {
            &&& if move_allowed(l0, -1, 0) {
                moved_with_sound(l0, l1, -1, 0)
            } else {
                l1 == l0
            }
            &&& c1 == after_shift_press(c0, HorizontalDirection::Left, now, l0)
        },
        AppAction::MoveRightPress(now) => p1 == p0 && if !active {
            l1 == l0 && c1 == c0
        } else {
            &&& if move_allowed(l0, 1, 0) {
                moved_with_sound(l0, l1, 1, 0)
            } else {
                l1 == l0
            }
            &&& c1 == after_shift_press(c0, HorizontalDirection::Right, now, l0)
        },
        AppAction::MoveLeftRelease => p1 == p0 && l1 == l0 && c1 == if release_allowed(
            c0,
            HorizontalDirection::Left,
            grav.das_ms,
        ) {
            c0.spec_release_horizontal(HorizontalDirection::Left, grav.das_ms)
        } else {
            c0
        },
        AppAction::MoveRightRelease => p1 == p0 && l1 == l0 && c1 == if release_allowed(
            c0,
            HorizontalDirection::Right,
            grav.das_ms,
        ) {
            c0.spec_release_horizontal(HorizontalDirection::Right, grav.das_ms)
        } else {
            c0
        },
        AppAction::SoftDropPress(now) => p1 == p0 && if !active {
            l1 == l0 && c1 == c0
        } else {
            &&& if move_allowed(l0, 0, 1) {
                moved_with_sound(l0, l1, 0, 1)
            } else {
                l1 == l0
            }
            &&& c1 == if now + grav.sdd_ms <= u64::MAX {
                InputRepeatState {
                    soft_drop: RepeatKeyState {
                        pressed: true,
                        pressed_at: now,
                        next_repeat_at: (now + grav.sdd_ms) as u64,
                    },
                    ..c0
                }
            } else {
                c0
            }
        },
        AppAction::SoftDropRelease => p1 == p0 && l1 == l0 && c1 == (InputRepeatState {
            soft_drop: RepeatKeyState { pressed: false, ..c0.soft_drop },
            ..c0
        }),
        AppAction::HardDrop => p1 == p0 && c1 == c0 && if active && drop_allowed(l0) {
            hard_dropped(l0, l1)
        } else {
            l1 == l0
        },
        AppAction::RotateCcw => p1 == p0 && c1 == c0 && if active && rotate_allowed(
            l0,
            RotationCommand::Ccw,
        ) {
            rotated(l0, l1, RotationCommand::Ccw)
        } else {
            l1 == l0
        },
        AppAction::RotateCw => p1 == p0 && c1 == c0 && if active && rotate_allowed(
            l0,
            RotationCommand::Cw,
        ) {
            rotated(l0, l1, RotationCommand::Cw)
        } else {
            l1 == l0
        },
        AppAction::Rotate180 => p1 == p0 && c1 == c0 && if active && rotate_allowed(
            l0,
            RotationCommand::Flip,
        ) {
            rotated(l0, l1, RotationCommand::Flip)
        } else {
            l1 == l0
        },
        AppAction::Hold => p1 == p0 && c1 == c0 && if active && !hold_locked(l0.game) {
            held(l0, l1)
        } else {
            l1 == l0
        },
        AppAction::Undo => p1 == p0 && c1 == c0 && if active {
            exists|r: bool| #[trigger] undone(l0, l1, r)
        } else {
            l1 == l0
        },
        AppAction::Redo => p1 == p0 && c1 == c0 && if active {
            exists|r: bool| #[trigger] redone(l0, l1, r)
        } else {
            l1 == l0
        },
        _ => p1 == p0 && c1 == c0 && l1 == l0,
    }
}

/// Whether the piece can be moved by `(dx, dy)`: see `move_allowed`.
fn can_move(l: &GameLoop, dx: i32, dy: i32) -> (r: bool)
    requires
        l.wf(),
        -1 <= dx <= 1,
        0 <= dy <= 1,
    ensures
        r == move_allowed(*l, dx as int, dy as int),
{
    let c = l.game.current;
    let nx: i64 = c.x as i64 + dx as i64;
    let ny: i64 = c.y as i64 + dy as i64;
    if nx > (i32::MAX - 3) as i64 || ny > (i32::MAX - 3) as i64 || nx < i32::MIN as i64 || ny
        < i32::MIN as i64 {
        return false;
    }
    let p = PieceState { x: nx as i32, y: ny as i32, ..c };
    assert(p == shifted(c, dx as int, dy as int));
    if !fits(&l.game.board, p) {
        return true;
    }
    if l.game.stats.moves == u32::MAX {
        return false;
    }
    let delay = l.game.lock_delay;
    if delay.active && delay.moves == u8::MAX {
        return false;
    }
    let out = delay.active && delay.moves + 1 >= delay.max_moves;
    if !out {
        return true;
    }
    let r = lock_ready_at(&l.game, p);
    proof {
        lemma_lock_ready_depends(
            moved_game(l.game, dx as int, dy as int),
            crate::game::game_state::GameState { current: p, ..l.game },
        );
    }
    r
}

/// Whether the piece can be turned with `command`: see `rotate_allowed`.
fn can_rotate(l: &GameLoop, command: RotationCommand) -> (r: bool)
    requires
        l.wf(),
    ensures
        r == rotate_allowed(*l, command),
{
    let c = l.game.current;
    if !(i32::MIN + 2 <= c.x && c.x <= i32::MAX - 5 && i32::MIN + 2 <= c.y && c.y <= i32::MAX - 5) {
        return false;
    }
    match rotation_outcome(&l.game.board, c, command) {
        None => true,
        Some((p, k)) => {
            if l.game.stats.moves == u32::MAX {
                return false;
            }
            let delay = l.game.lock_delay;
            if delay.active && delay.moves == u8::MAX {
                return false;
            }
            let out = delay.active && delay.moves + 1 >= delay.max_moves;
            if !out {
                return true;
            }
            let r = lock_ready_at(&l.game, p);
            proof {
                lemma_lock_ready_depends(
                    delay_counted(after_placement(l.game, p, k)),
                    crate::game::game_state::GameState { current: p, ..l.game },
                );
            }
            r
        },
    }
}

/// Whether the piece can be hard-dropped: see `drop_allowed`.
fn can_drop(l: &GameLoop) -> (r: bool)
    requires
        l.wf(),
    ensures
        r == drop_allowed(*l),
{
    let g = &l.game;
    let c = g.current;
    if !(c.x <= i32::MAX - 3 && c.y <= i32::MAX - 4) {
        return false;
    }
    let landing = l.ghost_position();
    let ghost k = choose|k: int|
        k >= 0 && landing == shifted(c, 0, k) && #[trigger] drops_by(g.board, c, k);
    proof {
        if k >= 1 {
            lemma_fits_down_range(g.board, c, k);
        }
    }
    assert(landing.y == c.y + k);
    let steps: i64 = landing.y as i64 - c.y as i64;
    assert(steps == k);
    if (g.stats.moves as i64) + steps > u32::MAX as i64 {
        proof {
            assert(fits_down_to(g.board, c, k));
        }
        return false;
    }
    let ready = lock_ready_at(g, landing);
    proof {
        lemma_lock_ready_depends(
            dropped_game(*g, k),
            crate::game::game_state::GameState { current: landing, ..*g },
        );
        assert forall|j: int| j >= 0 && #[trigger] fits_down_to(g.board, c, j) implies g.stats.moves
            + j <= u32::MAX by {
            lemma_drop_bound(g.board, c, k, j);
        }
        assert forall|k2: int| k2 >= 0 && #[trigger] drops_by(g.board, c, k2) implies k2 == k by {
            lemma_drop_bound(g.board, c, k, k2);
            lemma_drop_bound(g.board, c, k2, k);
        }
    }
    ready
}

impl GameController {
    /// Carries out an action on the game loop and the pause flag; `static_queue`
    /// is the fixed piece list restarts use. See `dispatched`.
    #[verifier::rlimit(60)]
    pub fn dispatch(
        &mut self,
        game_loop: &mut GameLoop,
        paused: &mut bool,
        static_queue: &Option<Vec<Tetromino>>,
        action: AppAction,
    )
        requires
            old(game_loop).wf(),
        ensures
            final(game_loop).wf(),
            dispatched(
                old(self).repeat_state,
                final(self).repeat_state,
                *old(game_loop),
                *final(game_loop),
                *old(paused),
                *final(paused),
                opt_pieces(*static_queue),
                action,
            ),
    {
        let active = !*paused && !game_loop.game.stats.lost;
        match action {
            AppAction::TogglePause => {
                *paused = !*paused;
                self.clear_repeat_state();
            },
            AppAction::Reset(mode) => {
                self.restart(game_loop, paused, static_queue, mode);
            },
            AppAction::ResetCurrent => {
                let mode = game_loop.game.mode;
                self.restart(game_loop, paused, static_queue, mode);
            },
            AppAction::CycleMode => {
                let mode = Self::next_round_robin_mode(game_loop.game.mode);
                self.restart(game_loop, paused, static_queue, mode);
            },
            AppAction::MoveLeftPress(now) => {
                if active {
                    self.shift_press(game_loop, HorizontalDirection::Left, now);
                }
            },
            AppAction::MoveRightPress(now) => {
                if active {
                    self.shift_press(game_loop, HorizontalDirection::Right, now);
                }
            },
            AppAction::MoveLeftRelease => {
                self.shift_release(game_loop, HorizontalDirection::Left);
            },
            AppAction::MoveRightRelease => {
                self.shift_release(game_loop, HorizontalDirection::Right);
            },
            AppAction::SoftDropPress(now) => {
                if active {
                    let sdd_ms = game_loop.game.gravity.sdd_ms;
                    Self::move_with_sound(game_loop, 0, 1);
                    if now <= u64::MAX - sdd_ms as u64 {
                        self.repeat_state.press_soft_drop(now, sdd_ms);
                    }
                }
            },
            AppAction::SoftDropRelease => self.repeat_state.release_soft_drop(),
            AppAction::HardDrop => {
                if active && can_drop(game_loop) {
                    game_loop.hard_drop();
                }
            },
            AppAction::RotateCcw => {
                if active && can_rotate(game_loop, RotationCommand::Ccw) {
                    game_loop.try_rotate_piece(RotationCommand::Ccw);
                }
            },
            AppAction::RotateCw => {
                if active && can_rotate(game_loop, RotationCommand::Cw) {
                    game_loop.try_rotate_piece(RotationCommand::Cw);
                }
            },
            AppAction::Rotate180 => {
                if active && can_rotate(game_loop, RotationCommand::Flip) {
                    game_loop.try_rotate_piece(RotationCommand::Flip);
                }
            },
            AppAction::Hold => {
                if active {
                    let _ = game_loop.hold_swap();
                }
            },
            AppAction::Undo => {
                if active {
                    game_loop.undo();
                }
            },
            AppAction::Redo => {
                if active {
                    game_loop.redo();
                }
            },
            _ => {},
        }
    }

    fn restart(
        &mut self,
        game_loop: &mut GameLoop,
        paused: &mut bool,
        static_queue: &Option<Vec<Tetromino>>,
        mode: GameMode,
    )
        requires
            old(game_loop).wf(),
        ensures
            final(game_loop).wf(),
            reset_by(*old(game_loop), *final(game_loop), mode, opt_pieces(*static_queue)),
            !*final(paused),
            final(self).repeat_state == InputRepeatState::spec_default(),
    {
        let width = game_loop.game.board.width;
        let total = game_loop.game.board.total_height();
        let allowed = (mode != GameMode::Cheese || width > 0 || total == 0) && (mode
            != GameMode::FourWide || (width >= 4 && total >= 2));
        if allowed {
            let queue = match static_queue {
                Some(v) => Some(copy_vec(v)),
                None => None,
            };
            assert(opt_pieces(queue) == opt_pieces(*static_queue));
            game_loop.reset(mode, queue);
        }
        *paused = false;
        self.clear_repeat_state();
    }

    fn move_with_sound(game_loop: &mut GameLoop, dx: i32, dy: i32)
        requires
            old(game_loop).wf(),
            -1 <= dx <= 1,
            0 <= dy <= 1,
        ensures
            final(game_loop).wf(),
            if move_allowed(*old(game_loop), dx as int, dy as int) {
                moved_with_sound(*old(game_loop), *final(game_loop), dx as int, dy as int)
            } else {
                *final(game_loop) == *old(game_loop)
            },
    {
        if can_move(game_loop, dx, dy) {
            let ghost b = *game_loop;
            if game_loop.try_move_piece(dx, dy) {
                let ghost m = *game_loop;
                game_loop.pending_sounds.push(SoundEffect::Move);
                assert(acted(b, m, moved_game(b.game, dx as int, dy as int), SoundEffect::Move));
            }
        }
    }

    fn shift_press(&mut self, game_loop: &mut GameLoop, direction: HorizontalDirection, now: u64)
        requires
            old(game_loop).wf(),
        ensures
            final(game_loop).wf(),
            ({
                let dx: int = match direction {
                    HorizontalDirection::Left => -1,
                    HorizontalDirection::Right => 1,
                };
                &&& if move_allowed(*old(game_loop), dx, 0) {
                    moved_with_sound(*old(game_loop), *final(game_loop), dx, 0)
                } else {
                    *final(game_loop) == *old(game_loop)
                }
                &&& final(self).repeat_state == after_shift_press(
                    old(self).repeat_state,
                    direction,
                    now,
                    *old(game_loop),
                )
            }),
    {
        let das_ms = game_loop.game.gravity.das_ms;
        let das_cancel = game_loop.game.gravity.das_cancel;
        let dx: i32 = match direction {
            HorizontalDirection::Left => -1,
            HorizontalDirection::Right => 1,
        };
        Self::move_with_sound(game_loop, dx, 0);
        if now <= u64::MAX - das_ms as u64 {
            self.repeat_state.press_horizontal(direction, now, das_ms, das_cancel);
        }
    }

    fn shift_release(&mut self, game_loop: &GameLoop, direction: HorizontalDirection)
        ensures
            final(self).repeat_state == if release_allowed(
                old(self).repeat_state,
                direction,
                game_loop.game.gravity.das_ms,
            ) {
                old(self).repeat_state.spec_release_horizontal(direction, game_loop.game.gravity.das_ms)
            } else {
                old(self).repeat_state
            },
    {
        let das_ms = game_loop.game.gravity.das_ms;
        let s = self.repeat_state;
        let opposite = direction.opposite();
        let other_pressed = match opposite {
            HorizontalDirection::Left => s.left.pressed,
            HorizontalDirection::Right => s.right.pressed,
        };
        let pressed_at = match direction {
            HorizontalDirection::Left => s.left.pressed_at,
            HorizontalDirection::Right => s.right.pressed_at,
        };
        let active_here = match s.active_horizontal {
            Some(d) => d == direction,
            None => false,
        };
        if active_here && other_pressed && pressed_at > u64::MAX - das_ms as u64 {
            return;
        }
        self.repeat_state.release_horizontal(direction, das_ms);
    }
}

/// Whether a repeat step can move the piece by `(dx, dy)`: the move is
/// allowed and the piece fits there.
pub open spec fn can_step(l: GameLoop, dx: int, dy: int) -> bool {
    move_allowed(l, dx, dy) && spec_fits(l.game.board, shifted(l.game.current, dx, dy))
}

/// Step `i` of `chain` is a possible repeat step by `(dx, dy)`.
pub open spec fn chain_step(chain: Seq<GameLoop>, i: int, dx: int, dy: int) -> bool {
    &&& can_step(chain[i], dx, dy)
    &&& acted(chain[i], chain[i + 1], moved_game(chain[i].game, dx, dy), SoundEffect::Move)
}

/// `a` is `b` after `n` repeat steps by `(dx, dy)`, each one possible.
pub open spec fn moved_times(b: GameLoop, a: GameLoop, dx: int, dy: int, n: nat) -> bool {
    exists|chain: Seq<GameLoop>|
        {
            &&& #[trigger] chain.len() == n + 1
            &&& chain[0] == b
            &&& chain[n as int] == a
            &&& forall|i: int| 0 <= i < n ==> #[trigger] chain_step(chain, i, dx, dy)
        }
}

/// No step leaves the state as it is.
proof fn lemma_moved_none(b: GameLoop, dx: int, dy: int)
    ensures
        moved_times(b, b, dx, dy, 0),
{
    let chain = seq![b];
    assert(chain.len() == 0 + 1);
}

/// What a key held since its state `k0` does by `now`: with a zero
/// interval, once due it moves the piece as far as it goes (at most
/// `u64::MAX` steps) and is next due at `now`; otherwise it moves once per
/// interval that has come due, stopping early where the piece cannot move
/// (or the next time would overflow), and is next due one interval after its
/// last move. `k1` is the key's state after.
pub open spec fn repeated(
    l0: GameLoop,
    l1: GameLoop,
    k0: RepeatKeyState,
    k1: RepeatKeyState,
    interval: u32,
    now: u64,
    dx: int,
    dy: int,
) -> bool {
    if interval == 0 {
        if k0.next_repeat_at < now {
            &&& k1 == RepeatKeyState { next_repeat_at: now, ..k0 }
            &&& exists|n: nat|
                #[trigger] moved_times(l0, l1, dx, dy, n) && (!can_step(l1, dx, dy) || n == u64::MAX)
        } else {
            k1 == k0 && l1 == l0
        }
    } else {
        exists|n: nat|
            {
                &&& #[trigger] moved_times(l0, l1, dx, dy, n)
                &&& k1 == RepeatKeyState {
                    next_repeat_at: (k0.next_repeat_at + n * interval) as u64,
                    ..k0
                }
                &&& k0.next_repeat_at + n * interval <= u64::MAX
                &&& n > 0 ==> k0.next_repeat_at + (n - 1) * interval < now
                &&& k0.next_repeat_at + n * interval >= now || !can_step(l1, dx, dy)
                    || k0.next_repeat_at + n * interval + interval > u64::MAX
            }
    }
}

/// The row and column step of a shift key.
pub open spec fn shift_step(direction: HorizontalDirection) -> int {
    match direction {
        HorizontalDirection::Left => -1,
        HorizontalDirection::Right => 1,
    }
}

/// What time passing until `now` does: while play goes on, the repeating
/// shift key (if held) and then the soft-drop key (if held) repeat as
/// `repeated` says, at the game's auto-repeat and soft-drop rates.
pub open spec fn timers_advanced(
    c0: InputRepeatState,
    c1: InputRepeatState,
    l0: GameLoop,
    l1: GameLoop,
    paused: bool,
    now: u64,
) -> bool {
    let arr = l0.game.gravity.arr_ms;
    let sds = l0.game.gravity.sds_ms;
    if !gameplay_active(l0, paused) {
        c1 == c0 && l1 == l0
    } else {
        &&& c1.active_horizontal == c0.active_horizontal
        &&& exists|m: GameLoop|
            {
                &&& #[trigger] m.wf()
                &&& match c0.active_horizontal {
                    Some(d) => if c0.key(d).pressed {
                        &&& repeated(l0, m, c0.key(d), c1.key(d), arr, now, shift_step(d), 0)
                        &&& c1.key(d.spec_opposite()) == c0.key(d.spec_opposite())
                    } else {
                        m == l0 && c1.left == c0.left && c1.right == c0.right
                    },
                    None => m == l0 && c1.left == c0.left && c1.right == c0.right,
                }
                &&& if c0.soft_drop.pressed {
                    repeated(m, l1, c0.soft_drop, c1.soft_drop, sds, now, 0, 1)
                } else {
                    l1 == m && c1.soft_drop == c0.soft_drop
                }
            }
    }
}

/// One more possible step extends a run of repeat steps.
proof fn lemma_moved_once_more(b: GameLoop, m: GameLoop, a: GameLoop, dx: int, dy: int, n: nat)
    requires
        moved_times(b, m, dx, dy, n),
        can_step(m, dx, dy),
        acted(m, a, moved_game(m.game, dx, dy), SoundEffect::Move),
    ensures
        moved_times(b, a, dx, dy, n + 1),
{
    let chain = choose|chain: Seq<GameLoop>|
        {
            &&& #[trigger] chain.len() == n + 1
            &&& chain[0] == b
            &&& chain[n as int] == m
            &&& forall|i: int| 0 <= i < n ==> #[trigger] chain_step(chain, i, dx, dy)
        };
    let longer = chain.push(a);
    assert forall|i: int| 0 <= i < n + 1 implies #[trigger] chain_step(longer, i, dx, dy) by {
        if i < n {
            assert(chain_step(chain, i, dx, dy));
            assert(longer[i] == chain[i] && longer[i + 1] == chain[i + 1]);
        } else {
            assert(longer[i] == m && longer[i + 1] == a);
        }
    }
    assert(longer.len() == (n + 1) + 1);
}

/// One repeat step: moves the piece by `(dx, dy)` where it can.
fn step_once(game_loop: &mut GameLoop, dx: i32, dy: i32) -> (moved: bool)
    requires
        old(game_loop).wf(),
        -1 <= dx <= 1,
        0 <= dy <= 1,
    ensures
        final(game_loop).wf(),
        moved == can_step(*old(game_loop), dx as int, dy as int),
        moved ==> acted(
            *old(game_loop),
            *final(game_loop),
            moved_game(old(game_loop).game, dx as int, dy as int),
            SoundEffect::Move,
        ),
        !moved ==> *final(game_loop) == *old(game_loop),
{
    if can_move(game_loop, dx, dy) {
        game_loop.try_move_piece(dx, dy)
    } else {
        false
    }
}

/// Repeats a held key until `now`: see `repeated`.
fn advance_repeat(
    now: u64,
    key_state: &mut RepeatKeyState,
    interval_ms: u32,
    game_loop: &mut GameLoop,
    dx: i32,
    dy: i32,
)
    requires
        old(game_loop).wf(),
        -1 <= dx <= 1,
        0 <= dy <= 1,
    ensures
        final(game_loop).wf(),
        repeated(
            *old(game_loop),
            *final(game_loop),
            *old(key_state),
            *final(key_state),
            interval_ms,
            now,
            dx as int,
            dy as int,
        ),
{
    let ghost l0 = *game_loop;
    proof {
        lemma_moved_none(l0, dx as int, dy as int);
    }
    if interval_ms == 0 {
        if key_state.next_repeat_at < now {
            let mut fuel: u64 = u64::MAX;
            let ghost mut n: nat = 0;
            let mut going = true;
            while going && fuel > 0
                invariant
                    game_loop.wf(),
                    moved_times(l0, *game_loop, dx as int, dy as int, n),
                    n + fuel == u64::MAX,
                    -1 <= dx <= 1,
                    0 <= dy <= 1,
                    !going ==> !can_step(*game_loop, dx as int, dy as int),
                decreases fuel, if going { 1int } else { 0int },
            {
                let ghost before = *game_loop;
                if step_once(game_loop, dx, dy) {
                    proof {
                        lemma_moved_once_more(l0, before, *game_loop, dx as int, dy as int, n);
                        n = n + 1;
                    }
                    fuel -= 1;
                } else {
                    going = false;
                }
            }
            key_state.next_repeat_at = now;
        }
        return;
    }
    let ghost k0 = *key_state;
    let ghost mut n: nat = 0;
    while key_state.next_repeat_at < now
        invariant
            game_loop.wf(),
            moved_times(l0, *game_loop, dx as int, dy as int, n),
            interval_ms > 0,
            -1 <= dx <= 1,
            0 <= dy <= 1,
            *key_state == (RepeatKeyState {
                next_repeat_at: (k0.next_repeat_at + n * interval_ms) as u64,
                ..k0
            }),
            k0.next_repeat_at + n * interval_ms <= u64::MAX,
            n > 0 ==> k0.next_repeat_at + (n - 1) * interval_ms < now,
        ensures
            game_loop.wf(),
            moved_times(l0, *game_loop, dx as int, dy as int, n),
            *key_state == (RepeatKeyState {
                next_repeat_at: (k0.next_repeat_at + n * interval_ms) as u64,
                ..k0
            }),
            k0.next_repeat_at + n * interval_ms <= u64::MAX,
            n > 0 ==> k0.next_repeat_at + (n - 1) * interval_ms < now,
            k0.next_repeat_at + n * interval_ms >= now || !can_step(*game_loop, dx as int, dy as int)
                || k0.next_repeat_at + n * interval_ms + interval_ms > u64::MAX,
        decreases if key_state.next_repeat_at < now {
            now - key_state.next_repeat_at
        } else {
            0
        },
    {
        if key_state.next_repeat_at > u64::MAX - interval_ms as u64 {
            break;
        }
        let ghost before = *game_loop;
        if !step_once(game_loop, dx, dy) {
            break;
        }
        proof {
            lemma_moved_once_more(l0, before, *game_loop, dx as int, dy as int, n);
            assert((n + 1) * interval_ms == n * interval_ms + interval_ms) by (nonlinear_arith);
            assert(((n + 1) - 1) * interval_ms == n * interval_ms);
            n = n + 1;
        }
        let old_next = key_state.next_repeat_at;
        key_state.next_repeat_at = old_next + interval_ms as u64;
        assert(key_state.next_repeat_at > old_next);
    }
}

impl GameController {
    /// Lets the held keys repeat until `now`: see `timers_advanced`.
    pub fn advance_timers(&mut self, game_loop: &mut GameLoop, paused: bool, now: u64)
        requires
            old(game_loop).wf(),
        ensures
            final(game_loop).wf(),
            timers_advanced(
                old(self).repeat_state,
                final(self).repeat_state,
                *old(game_loop),
                *final(game_loop),
                paused,
                now,
            ),
    {
        if paused || game_loop.game.stats.lost {
            return;
        }
        let horizontal_arr_ms = game_loop.game.gravity.arr_ms;
        let soft_drop_interval_ms = game_loop.game.gravity.sds_ms;
        let ghost c0 = self.repeat_state;
        let ghost l0 = *game_loop;
        if let Some(direction) = self.repeat_state.active_horizontal {
            let pressed = match direction {
                HorizontalDirection::Left => self.repeat_state.left.pressed,
                HorizontalDirection::Right => self.repeat_state.right.pressed,
            };
            if pressed {
                let delta: i32 = match direction {
                    HorizontalDirection::Left => -1,
                    HorizontalDirection::Right => 1,
                };
                match direction {
                    HorizontalDirection::Left => advance_repeat(
                        now,
                        &mut self.repeat_state.left,
                        horizontal_arr_ms,
                        game_loop,
                        delta,
                        0,
                    ),
                    HorizontalDirection::Right => advance_repeat(
                        now,
                        &mut self.repeat_state.right,
                        horizontal_arr_ms,
                        game_loop,
                        delta,
                        0,
                    ),
                }
            }
        }
        let ghost m = *game_loop;
        let ghost c_mid = self.repeat_state;
        if self.repeat_state.soft_drop.pressed {
            advance_repeat(now, &mut self.repeat_state.soft_drop, soft_drop_interval_ms, game_loop, 0, 1);
        }
        assert(m.wf());
    }
}

/// Cycling visits every playable mode and comes back after five steps.
pub proof fn law_cycle_returns(mode: GameMode)
    requires
        mode != GameMode::Edit,
    ensures
        next_mode(next_mode(next_mode(next_mode(next_mode(mode))))) == mode,
{
}

} // verus!
