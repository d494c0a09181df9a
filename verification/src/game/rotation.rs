use vstd::prelude::*;

use super::board::{Board, covers, piece_in_range};
use super::game_state::{GameState, SpinState, Stats};
use super::piece::{
    PieceState, Rotation, RotationCommand, Tetromino, command_index, piece_shape,
    rotation_from_index, rotation_index, shape_at,
};

verus! {

/// Every square the piece's shape covers is on the board and empty.
pub open spec fn spec_fits(board: Board, piece: PieceState) -> bool {
    forall|dx: int, dy: int|
        0 <= dx < 4 && 0 <= dy < 4 && #[trigger] shape_at(piece.kind, piece.rotation, dx, dy)
            ==> !board.blocked(piece.x + dx, piece.y + dy)
}

/// Positions at which every kick offset and shape offset can be added
/// without overflow.
pub open spec fn kick_in_range(piece: PieceState) -> bool {
    &&& i32::MIN + 2 <= piece.x <= i32::MAX - 5
    &&& i32::MIN + 2 <= piece.y <= i32::MAX - 5
}

/// The first square in column-major shape order that stops `piece` from
/// fitting, with the reason: off the board, or occupied.
pub fn fits_collision_reason(board: &Board, piece: PieceState) -> (r: Option<(i32, i32, &'static str)>)
    requires
        board.wf(),
        piece_in_range(piece),
    ensures
        r is None <==> spec_fits(*board, piece),
        r matches Some((bx, by, reason)) ==> {
            &&& covers(piece, bx as int, by as int)
            &&& board.blocked(bx as int, by as int)
            &&& (reason == "oob") == !board.spec_in_bounds(bx as int, by as int)
        },
{
    let shape = piece_shape(piece.kind, piece.rotation);
    let mut x: i32 = 0;
    while x < 4
        invariant
            0 <= x <= 4,
            board.wf(),
            piece_in_range(piece),
            forall|a: int, b: int|
                0 <= a < 4 && 0 <= b < 4 ==> #[trigger] shape@[a]@[b] == shape_at(
                    piece.kind,
                    piece.rotation,
                    a,
                    b,
                ),
            forall|dx: int, dy: int|
                0 <= dx < x && 0 <= dy < 4 && #[trigger] shape_at(piece.kind, piece.rotation, dx, dy)
                    ==> !board.blocked(piece.x + dx, piece.y + dy),
        decreases 4 - x,
    {
        let mut y: i32 = 0;
        while y < 4
            invariant
                0 <= x < 4,
                0 <= y <= 4,
                board.wf(),
                piece_in_range(piece),
                forall|a: int, b: int|
                    0 <= a < 4 && 0 <= b < 4 ==> #[trigger] shape@[a]@[b] == shape_at(
                        piece.kind,
                        piece.rotation,
                        a,
                        b,
                    ),
                forall|dx: int, dy: int|
                    (0 <= dx < x && 0 <= dy < 4 || dx == x && 0 <= dy < y) && #[trigger] shape_at(
                        piece.kind,
                        piece.rotation,
                        dx,
                        dy,
                    ) ==> !board.blocked(piece.x + dx, piece.y + dy),
            decreases 4 - y,
        {
            if shape[x as usize][y as usize] {
                let bx = piece.x + x;
                let by = piece.y + y;
                if !board.in_bounds(bx, by) {
                    return Some((bx, by, "oob"));
                }
                if board.is_occupied_or_oob(bx, by) {
                    let reason = "occupied";
                    proof {
                        reveal_strlit("occupied");
                        reveal_strlit("oob");
                        assert(reason@.len() != "oob"@.len());
                    }
                    return Some((bx, by, reason));
                }
            }
            y += 1;
        }
        x += 1;
    }
    None
}

/// Whether the piece fits: every covered square is on the board and empty.
pub fn fits(board: &Board, piece: PieceState) -> (r: bool)
    requires
        board.wf(),
        piece_in_range(piece),
    ensures
        r == spec_fits(*board, piece),
{
    fits_collision_reason(board, piece).is_none()
}

/// Wall-kick offsets tried when turning a piece of `kind` into orientation
/// `to` with `command`: none for O and the single-cell block, none for a
/// half turn of I.
pub open spec fn spec_kick_offsets(kind: Tetromino, to: Rotation, command: RotationCommand) -> Option<
    Seq<(int, int)>,
> {
    let idx = rotation_index(to);
    match kind {
        Tetromino::O | Tetromino::Mono => None,
        Tetromino::I => match command {
            RotationCommand::Ccw => Some(i_ccw_table(idx)),
            RotationCommand::Cw => Some(i_cw_table(idx)),
            _ => None,
        },
        _ => match command {
            RotationCommand::Ccw => Some(non_i_ccw_table(idx)),
            RotationCommand::Flip => Some(non_i_180_table(idx)),
            RotationCommand::Cw => Some(non_i_cw_table(idx)),
            RotationCommand::NoTurn => None,
        },
    }
}

pub open spec fn i_ccw_table(idx: int) -> Seq<(int, int)> {
    if idx == 0 {
        seq![(2, 0), (-1, 0), (2, -1), (-1, 2)]
    } else if idx == 1 {
        seq![(-1, 0), (2, 0), (-1, -2), (2, 1)]
    } else if idx == 2 {
        seq![(-2, 0), (1, 0), (-2, 1), (1, -2)]
    } else {
        seq![(1, 0), (-2, 0), (1, 2), (-2, 1)]
    }
}

pub open spec fn i_cw_table(idx: int) -> Seq<(int, int)> {
    if idx == 0 {
        seq![(1, 0), (-2, 0), (1, 2), (-2, -1)]
    } else if idx == 1 {
        seq![(2, 0), (-1, 0), (2, -1), (-1, 2)]
    } else if idx == 2 {
        seq![(-1, 0), (2, 0), (-1, -2), (2, 1)]
    } else {
        seq![(-2, 0), (1, 0), (-2, 1), (1, -2)]
    }
}

pub open spec fn non_i_ccw_table(idx: int) -> Seq<(int, int)> {
    if idx == 0 {
        seq![(1, 0), (1, 1), (0, -2), (1, -2)]
    } else if idx == 1 {
        seq![(1, 0), (1, -1), (0, 2), (1, 2)]
    } else if idx == 2 {
        seq![(-1, 0), (-1, 1), (0, -2), (-1, -2)]
    } else {
        seq![(-1, 0), (-1, -1), (0, 2), (-1, 2)]
    }
}

pub open spec fn non_i_cw_table(idx: int) -> Seq<(int, int)> {
    if idx == 0 {
        seq![(-1, 0), (-1, 1), (0, -2), (-1, -2)]
    } else if idx == 1 {
        seq![(1, 0), (1, -1), (0, 2), (1, 2)]
    } else if idx == 2 {
        seq![(1, 0), (1, 1), (0, -2), (1, -2)]
    } else {
        seq![(-1, 0), (-1, -1), (0, 2), (-1, 2)]
    }
}

pub open spec fn non_i_180_table(idx: int) -> Seq<(int, int)> {
    if idx == 0 {
        seq![(0, 1), (-1, 1), (1, 1), (-1, 0), (1, 0)]
    } else if idx == 1 {
        seq![(1, 0), (1, -2), (1, -1), (0, -2), (0, -1)]
    } else if idx == 2 {
        seq![(0, -1), (1, -1), (-1, -1), (1, 0), (-1, 0)]
    } else {
        seq![(-1, 0), (-1, 2), (-1, -1), (0, -2), (0, -1)]
    }
}

/// The view of a list of offsets as integers.
pub open spec fn offsets_view(v: Seq<(i8, i8)>) -> Seq<(int, int)> {
    v.map_values(|p: (i8, i8)| (p.0 as int, p.1 as int))
}

/// The wall-kick offsets tried when turning a piece of `kind` into
/// orientation `to` with `command`.
pub fn kick_offsets(kind: Tetromino, to: Rotation, command: RotationCommand) -> (r: Option<
    Vec<(i8, i8)>,
>)
    ensures
        r is None <==> spec_kick_offsets(kind, to, command) is None,
        r matches Some(v) ==> offsets_view(v@) == spec_kick_offsets(kind, to, command)->0,
{
    let idx: u8 = match to {
        Rotation::Spawn => 0,
        Rotation::Left => 1,
        Rotation::Reverse => 2,
        Rotation::Right => 3,
    };
    let r = match kind {
        Tetromino::O | Tetromino::Mono => None,
        Tetromino::I => match command {
            RotationCommand::Ccw => Some(
                if idx == 0 {
                    vec![(2, 0), (-1, 0), (2, -1), (-1, 2)]
                } else if idx == 1 {
                    vec![(-1, 0), (2, 0), (-1, -2), (2, 1)]
                } else if idx == 2 {
                    vec![(-2, 0), (1, 0), (-2, 1), (1, -2)]
                } else {
                    vec![(1, 0), (-2, 0), (1, 2), (-2, 1)]
                },
            ),
            RotationCommand::Cw => Some(
                if idx == 0 {
                    vec![(1, 0), (-2, 0), (1, 2), (-2, -1)]
                } else if idx == 1 {
                    vec![(2, 0), (-1, 0), (2, -1), (-1, 2)]
                } else if idx == 2 {
                    vec![(-1, 0), (2, 0), (-1, -2), (2, 1)]
                } else {
                    vec![(-2, 0), (1, 0), (-2, 1), (1, -2)]
                },
            ),
            _ => None,
        },
        _ => match command {
            RotationCommand::Ccw => Some(
                if idx == 0 {
                    vec![(1, 0), (1, 1), (0, -2), (1, -2)]
                } else if idx == 1 {
                    vec![(1, 0), (1, -1), (0, 2), (1, 2)]
                } else if idx == 2 {
                    vec![(-1, 0), (-1, 1), (0, -2), (-1, -2)]
                } else {
                    vec![(-1, 0), (-1, -1), (0, 2), (-1, 2)]
                },
            ),
            RotationCommand::Flip => Some(
                if idx == 0 {
                    vec![(0, 1), (-1, 1), (1, 1), (-1, 0), (1, 0)]
                } else if idx == 1 {
                    vec![(1, 0), (1, -2), (1, -1), (0, -2), (0, -1)]
                } else if idx == 2 {
                    vec![(0, -1), (1, -1), (-1, -1), (1, 0), (-1, 0)]
                } else {
                    vec![(-1, 0), (-1, 2), (-1, -1), (0, -2), (0, -1)]
                },
            ),
            RotationCommand::Cw => Some(
                if idx == 0 {
                    vec![(-1, 0), (-1, 1), (0, -2), (-1, -2)]
                } else if idx == 1 {
                    vec![(1, 0), (1, -1), (0, 2), (1, 2)]
                } else if idx == 2 {
                    vec![(1, 0), (1, 1), (0, -2), (1, -2)]
                } else {
                    vec![(-1, 0), (-1, -1), (0, 2), (-1, 2)]
                },
            ),
            RotationCommand::NoTurn => None,
        },
    };
    proof {
        if r is Some {
            assert(offsets_view(r->0@) =~= spec_kick_offsets(kind, to, command)->0);
        }
    }
    r
}

/// The orientation reached from `current` with `command`.
pub fn target_rotation(current: Rotation, command: RotationCommand) -> (r: Rotation)
    ensures
        r == rotation_from_index(rotation_index(current) + command_index(command)),
{
    let c: u8 = match current {
        Rotation::Spawn => 0,
        Rotation::Left => 1,
        Rotation::Reverse => 2,
        Rotation::Right => 3,
    };
    let k: u8 = match command {
        RotationCommand::NoTurn => 0,
        RotationCommand::Ccw => 1,
        RotationCommand::Flip => 2,
        RotationCommand::Cw => 3,
    };
    let v = (c + k) % 4;
    if v == 0 {
        Rotation::Spawn
    } else if v == 1 {
        Rotation::Left
    } else if v == 2 {
        Rotation::Reverse
    } else {
        Rotation::Right
    }
}

/// 1 for true, 0 for false.
pub open spec fn b2i(b: bool) -> int {
    if b {
        1
    } else {
        0
    }
}

/// A T piece with at least three of the four corners of its 3x3 box blocked.
pub open spec fn spec_t_spin(piece: PieceState, board: Board) -> bool {
    let x = piece.x as int;
    let y = piece.y as int;
    piece.kind == Tetromino::T && b2i(board.blocked(x, y)) + b2i(board.blocked(x + 2, y)) + b2i(
        board.blocked(x, y + 2),
    ) + b2i(board.blocked(x + 2, y + 2)) >= 3
}

/// A T-spin that is only a mini: not the last kick of the table, and one of
/// the two corners the T points at is open.
pub open spec fn spec_t_spin_mini(
    is_t_spin: bool,
    last_kick_index: Option<usize>,
    piece: PieceState,
    board: Board,
) -> bool {
    let x = piece.x as int;
    let y = piece.y as int;
    if !is_t_spin {
        false
    } else if last_kick_index == Some(3usize) {
        false
    } else {
        match piece.rotation {
            Rotation::Spawn => !(board.blocked(x + 2, y) && board.blocked(x, y)),
            Rotation::Left => !(board.blocked(x, y) && board.blocked(x, y + 2)),
            Rotation::Reverse => !(board.blocked(x, y + 2) && board.blocked(x + 2, y + 2)),
            Rotation::Right => !(board.blocked(x + 2, y + 2) && board.blocked(x + 2, y)),
        }
    }
}

/// Whether a T piece has three or more blocked corners.
pub fn detect_t_spin_inner(piece: PieceState, board: &Board) -> (r: bool)
    requires
        board.wf(),
        piece.x <= i32::MAX - 2,
        piece.y <= i32::MAX - 2,
    ensures
        r == spec_t_spin(piece, *board),
{
    if piece.kind != Tetromino::T {
        return false;
    }
    let x = piece.x;
    let y = piece.y;
    let mut occupied: u8 = 0;
    if board.is_occupied_or_oob(x, y) {
        occupied += 1;
    }
    if board.is_occupied_or_oob(x + 2, y) {
        occupied += 1;
    }
    if board.is_occupied_or_oob(x, y + 2) {
        occupied += 1;
    }
    if board.is_occupied_or_oob(x + 2, y + 2) {
        occupied += 1;
    }
    occupied >= 3
}

/// Whether the current piece of `game` is in T-spin position.
pub fn detect_t_spin(game: &GameState) -> (r: bool)
    requires
        game.board.wf(),
        game.current.x <= i32::MAX - 2,
        game.current.y <= i32::MAX - 2,
    ensures
        r == spec_t_spin(game.current, game.board),
{
    detect_t_spin_inner(game.current, &game.board)
}

/// Whether a T-spin only counts as a mini.
pub fn detect_t_spin_mini_inner(
    is_t_spin: bool,
    last_kick_index: Option<usize>,
    piece: PieceState,
    board: &Board,
) -> (r: bool)
    requires
        board.wf(),
        piece.x <= i32::MAX - 2,
        piece.y <= i32::MAX - 2,
    ensures
        r == spec_t_spin_mini(is_t_spin, last_kick_index, piece, *board),
{
    if !is_t_spin {
        return false;
    }
    if last_kick_index == Some(3) {
        return false;
    }
    let x = piece.x;
    let y = piece.y;
    match piece.rotation {
        Rotation::Spawn => !(board.is_occupied_or_oob(x + 2, y) && board.is_occupied_or_oob(x, y)),
        Rotation::Left => !(board.is_occupied_or_oob(x, y) && board.is_occupied_or_oob(x, y + 2)),
        Rotation::Reverse => !(board.is_occupied_or_oob(x, y + 2) && board.is_occupied_or_oob(
            x + 2,
            y + 2,
        )),
        Rotation::Right => !(board.is_occupied_or_oob(x + 2, y + 2) && board.is_occupied_or_oob(
            x + 2,
            y,
        )),
    }
}

/// Whether the current T-spin of `game` only counts as a mini.
pub fn detect_t_spin_mini(game: &GameState) -> (r: bool)
    requires
        game.board.wf(),
        game.current.x <= i32::MAX - 2,
        game.current.y <= i32::MAX - 2,
    ensures
        r == spec_t_spin_mini(
            game.spin.is_t_spin,
            game.spin.last_kick_index,
            game.current,
            game.board,
        ),
{
    detect_t_spin_mini_inner(
        game.spin.is_t_spin,
        game.spin.last_kick_index,
        game.current,
        &game.board,
    )
}

/// The piece shifted by `(dx, dy)`.
pub open spec fn shifted(p: PieceState, dx: int, dy: int) -> PieceState {
    PieceState { x: (p.x + dx) as i32, y: (p.y + dy) as i32, ..p }
}

/// The game after the current piece moved to `piece` (reached with kick
/// `kick`, or directly): spin state recomputed, one more move counted.
pub open spec fn after_placement(game: GameState, piece: PieceState, kick: Option<usize>) -> GameState {
    let t = spec_t_spin(piece, game.board);
    GameState {
        current: piece,
        spin: SpinState {
            is_t_spin: t,
            is_mini: spec_t_spin_mini(t, kick, piece, game.board),
            last_kick_index: kick,
        },
        stats: Stats { moves: (game.stats.moves + 1) as u32, ..game.stats },
        ..game
    }
}

/// The index of the first offset in `offs[i..]` at which `piece` fits.
pub open spec fn first_fitting_kick(board: Board, piece: PieceState, offs: Seq<(int, int)>, i: int) -> Option<
    int,
>
    decreases offs.len() - i,
{
    if i < 0 || i >= offs.len() {
        None
    } else if spec_fits(board, shifted(piece, offs[i].0, offs[i].1)) {
        Some(i)
    } else {
        first_fitting_kick(board, piece, offs, i + 1)
    }
}

/// The result of a rotation request: the piece's new state and the kick
/// used, or `None` when it does not turn.
pub open spec fn rotation_result(board: Board, current: PieceState, command: RotationCommand) -> Option<
    (PieceState, Option<usize>),
> {
    if command == RotationCommand::NoTurn {
        None
    } else {
        let to = rotation_from_index(rotation_index(current.rotation) + command_index(command));
        let direct = PieceState { rotation: to, ..current };
        if spec_fits(board, direct) {
            Some((direct, None))
        } else {
            match spec_kick_offsets(current.kind, to, command) {
                Some(offs) => match first_fitting_kick(board, direct, offs, 0) {
                    Some(i) => Some((shifted(direct, offs[i].0, offs[i].1), Some(i as usize))),
                    None => None,
                },
                None => None,
            }
        }
    }
}

/// Moves the current piece by `(dx, dy)` if it fits there.
pub fn try_move(game: &mut GameState, dx: i32, dy: i32) -> (moved: bool)
    requires
        old(game).board.wf(),
        piece_in_range(shifted(old(game).current, dx as int, dy as int)),
        i32::MIN <= old(game).current.x + dx <= i32::MAX,
        i32::MIN <= old(game).current.y + dy <= i32::MAX,
        spec_fits(old(game).board, shifted(old(game).current, dx as int, dy as int))
            ==> old(game).stats.moves < u32::MAX,
    ensures
        moved == spec_fits(old(game).board, shifted(old(game).current, dx as int, dy as int)),
        moved ==> *final(game) == (GameState {
            current: shifted(old(game).current, dx as int, dy as int),
            spin: SpinState { last_kick_index: None, ..old(game).spin },
            stats: Stats { moves: (old(game).stats.moves + 1) as u32, ..old(game).stats },
            ..*old(game)
        }),
        !moved ==> *final(game) == *old(game),
{
    let candidate = PieceState {
        kind: game.current.kind,
        rotation: game.current.rotation,
        x: game.current.x + dx,
        y: game.current.y + dy,
    };
    if fits(&game.board, candidate) {
        game.current.x = candidate.x;
        game.current.y = candidate.y;
        game.spin.last_kick_index = None;
        game.stats.moves += 1;
        true
    } else {
        false
    }
}

/// Turns the current piece with `command`: in place if it fits, else at the
/// first wall-kick offset that fits; the spin state is recomputed.
pub fn try_rotate(game: &mut GameState, command: RotationCommand) -> (turned: bool)
    requires
        old(game).board.wf(),
        kick_in_range(old(game).current),
        rotation_result(old(game).board, old(game).current, command) is Some
            ==> old(game).stats.moves < u32::MAX,
    ensures
        turned == rotation_result(old(game).board, old(game).current, command) is Some,
        rotation_result(old(game).board, old(game).current, command) matches Some((p, k))
            ==> *final(game) == after_placement(*old(game), p, k),
        !turned ==> *final(game) == *old(game),
{
    if command == RotationCommand::NoTurn {
        return false;
    }
    let from_rot = game.current.rotation;
    let to_rot = target_rotation(from_rot, command);
    let direct_candidate = PieceState {
        kind: game.current.kind,
        rotation: to_rot,
        x: game.current.x,
        y: game.current.y,
    };
    if fits(&game.board, direct_candidate) {
        game.current.rotation = to_rot;
        game.spin.last_kick_index = None;
        game.spin.is_t_spin = detect_t_spin_inner(game.current, &game.board);
        game.spin.is_mini = detect_t_spin_mini_inner(
            game.spin.is_t_spin,
            game.spin.last_kick_index,
            game.current,
            &game.board,
        );
        game.stats.moves += 1;
        return true;
    }
    let piece_kind = game.current.kind;
    if let Some(offsets) = kick_offsets(piece_kind, to_rot, command) {
        let ghost offs = offsets_view(offsets@);
        let mut i: usize = 0;
        while i < offsets.len()
            invariant
                game == old(game),
                direct_candidate == (PieceState { rotation: to_rot, ..old(game).current }),
                !spec_fits(old(game).board, direct_candidate),
                command != RotationCommand::NoTurn,
                to_rot == rotation_from_index(
                    rotation_index(old(game).current.rotation) + command_index(command),
                ),
                kick_in_range(old(game).current),
                old(game).board.wf(),
                rotation_result(old(game).board, old(game).current, command) is Some
                    ==> old(game).stats.moves < u32::MAX,
                offs == offsets_view(offsets@),
                offsets@.len() <= 5,
                spec_kick_offsets(piece_kind, to_rot, command) == Some(offs),
                piece_kind == old(game).current.kind,
                i <= offsets@.len(),
                first_fitting_kick(old(game).board, direct_candidate, offs, 0)
                    == first_fitting_kick(old(game).board, direct_candidate, offs, i as int),
            decreases offsets@.len() - i,
        {
            let (dx, dy) = offsets[i];
            proof {
                assert(offs[i as int] == (dx as int, dy as int));
                assert(-2 <= dx <= 2 && -2 <= dy <= 2) by {
                    assert(offs.len() >= 4);
                }
            }
            let candidate = PieceState {
                kind: piece_kind,
                rotation: to_rot,
                x: game.current.x + dx as i32,
                y: game.current.y + dy as i32,
            };
            if fits(&game.board, candidate) {
                proof {
                    assert(candidate == shifted(
                        direct_candidate,
                        offs[i as int].0,
                        offs[i as int].1,
                    ));
                    assert(first_fitting_kick(old(game).board, direct_candidate, offs, i as int)
                        == Some(i as int));
                }
                game.current.rotation = to_rot;
                game.current.x = candidate.x;
                game.current.y = candidate.y;
                game.spin.last_kick_index = Some(i);
                game.spin.is_t_spin = detect_t_spin_inner(game.current, &game.board);
                game.spin.is_mini = detect_t_spin_mini_inner(
                    game.spin.is_t_spin,
                    game.spin.last_kick_index,
                    game.current,
                    &game.board,
                );
                game.stats.moves += 1;
                proof {
                    let p = shifted(direct_candidate, offs[i as int].0, offs[i as int].1);
                    assert(rotation_result(old(game).board, old(game).current, command) == Some(
                        (p, Some(i)),
                    ));
                    assert(game.current == p);
                    assert(game.spin == after_placement(*old(game), p, Some(i)).spin);
                    assert(game.stats == after_placement(*old(game), p, Some(i)).stats);
                }
                return true;
            }
            i += 1;
        }
    }
    false
}

/// Where the piece would stand after `command`, and the kick used; `None`
/// when it cannot turn.
pub fn rotation_outcome(board: &Board, current: PieceState, command: RotationCommand) -> (r: Option<
    (PieceState, Option<usize>),
>)
    requires
        board.wf(),
        kick_in_range(current),
    ensures
        r == rotation_result(*board, current, command),
{
    if command == RotationCommand::NoTurn {
        return None;
    }
    let to_rot = target_rotation(current.rotation, command);
    let direct = PieceState { kind: current.kind, rotation: to_rot, x: current.x, y: current.y };
    if fits(board, direct) {
        return Some((direct, None));
    }
    match kick_offsets(current.kind, to_rot, command) {
        None => None,
        Some(offsets) => {
            let ghost offs = offsets_view(offsets@);
            let mut i: usize = 0;
            while i < offsets.len()
                invariant
                    board.wf(),
                    kick_in_range(current),
                    direct == (PieceState { rotation: to_rot, ..current }),
                    !spec_fits(*board, direct),
                    command != RotationCommand::NoTurn,
                    to_rot == rotation_from_index(
                        rotation_index(current.rotation) + command_index(command),
                    ),
                    offs == offsets_view(offsets@),
                    offsets@.len() <= 5,
                    spec_kick_offsets(current.kind, to_rot, command) == Some(offs),
                    i <= offsets@.len(),
                    first_fitting_kick(*board, direct, offs, 0) == first_fitting_kick(
                        *board,
                        direct,
                        offs,
                        i as int,
                    ),
                decreases offsets@.len() - i,
            {
                let (dx, dy) = offsets[i];
                proof {
                    assert(offs[i as int] == (dx as int, dy as int));
                    assert(-2 <= dx <= 2 && -2 <= dy <= 2) by {
                        assert(offs.len() >= 4);
                    }
                }
                let candidate = PieceState {
                    kind: current.kind,
                    rotation: to_rot,
                    x: current.x + dx as i32,
                    y: current.y + dy as i32,
                };
                if fits(board, candidate) {
                    proof {
                        assert(candidate == shifted(direct, offs[i as int].0, offs[i as int].1));
                        assert(first_fitting_kick(*board, direct, offs, i as int) == Some(i as int));
                    }
                    return Some((candidate, Some(i)));
                }
                i += 1;
            }
            None
        },
    }
}

/// Writes the current piece into the board.
pub fn freeze_active_piece(game: &mut GameState)
    requires
        old(game).board.wf(),
        piece_in_range(old(game).current),
    ensures
        final(game).board.wf(),
        final(game).board.same_shape(&old(game).board),
        forall|x: int, y: int|
            #![trigger final(game).board.at(x, y)]
            old(game).board.spec_in_bounds(x, y) ==> final(game).board.at(x, y) == (if covers(
                old(game).current,
                x,
                y,
            ) {
                super::piece::spec_cell_from_piece(old(game).current.kind)
            } else {
                old(game).board.at(x, y)
            }),
        *final(game) == (GameState { board: final(game).board, ..*old(game) }),
{
    let current = game.current;
    game.board.freeze_piece(current, current.kind);
}

/// A piece whose origin is at or below the floor row does not fit.
pub proof fn lemma_below_floor_does_not_fit(board: Board, piece: PieceState)
    requires
        piece.y + 1 >= board.total(),
    ensures
        !spec_fits(board, piece),
{
    super::piece::lemma_shape_has_low_cell(piece.kind, piece.rotation);
    let (x, y) = choose|x: int, y: int|
        0 <= x < 4 && 1 <= y < 4 && #[trigger] shape_at(piece.kind, piece.rotation, x, y);
    assert(board.blocked(piece.x + x, piece.y + y));
}

/// The orientation a turn `command` leads to from `r`.
pub open spec fn turned(r: Rotation, command: RotationCommand) -> Rotation {
    rotation_from_index(rotation_index(r) + command_index(command))
}

/// A clockwise turn undoes an anticlockwise one and the other way round, a
/// half turn undoes itself, four quarter turns come back, and no turn
/// changes nothing.
pub proof fn law_turns_compose(r: Rotation)
    ensures
        turned(turned(r, RotationCommand::Cw), RotationCommand::Ccw) == r,
        turned(turned(r, RotationCommand::Ccw), RotationCommand::Cw) == r,
        turned(turned(r, RotationCommand::Flip), RotationCommand::Flip) == r,
        turned(turned(turned(turned(r, RotationCommand::Cw), RotationCommand::Cw), RotationCommand::Cw), RotationCommand::Cw) == r,
        turned(r, RotationCommand::NoTurn) == r,
{
}

/// Every offset with its direction reversed.
pub open spec fn negated_offsets(s: Seq<(int, int)>) -> Seq<(int, int)> {
    s.map_values(|p: (int, int)| (-p.0, -p.1))
}

/// Every offset reflected left to right.
pub open spec fn mirrored_offsets(s: Seq<(int, int)>) -> Seq<(int, int)> {
    s.map_values(|p: (int, int)| (-p.0, p.1))
}

/// The orientation seen in a mirror: left and right swap.
pub open spec fn mirror_rotation(r: Rotation) -> Rotation {
    match r {
        Rotation::Spawn => Rotation::Spawn,
        Rotation::Left => Rotation::Right,
        Rotation::Reverse => Rotation::Reverse,
        Rotation::Right => Rotation::Left,
    }
}

/// Turning back undoes a kick: for every piece that kicks, the offsets
/// tried when turning counter-clockwise into `to` are those tried when
/// turning clockwise from `to` back where the piece came from, each
/// reversed. (The I piece's counter-clockwise turn into the right-hand
/// orientation is the one exception: its last offset is not the reverse.)
pub proof fn law_kicks_reverse(kind: Tetromino, to: Rotation)
    requires
        kind != Tetromino::O,
        kind != Tetromino::Mono,
        kind == Tetromino::I ==> to != Rotation::Right,
    ensures
        ({
            let from = rotation_from_index(rotation_index(to) + 3);
            &&& spec_kick_offsets(kind, to, RotationCommand::Ccw) is Some
            &&& spec_kick_offsets(kind, from, RotationCommand::Cw) is Some
            &&& spec_kick_offsets(kind, to, RotationCommand::Ccw)->0 == negated_offsets(
                spec_kick_offsets(kind, from, RotationCommand::Cw)->0,
            )
        }),
{
    let from = rotation_from_index(rotation_index(to) + 3);
    let a = spec_kick_offsets(kind, to, RotationCommand::Ccw)->0;
    let b = spec_kick_offsets(kind, from, RotationCommand::Cw)->0;
    let i = rotation_index(to);
    let j = rotation_index(from);
    assert(j == (i + 3) % 4);
    if kind == Tetromino::I {
        assert(a == i_ccw_table(i) && b == i_cw_table(j));
        if i == 0 {
            assert(i_ccw_table(0) =~= negated_offsets(i_cw_table(3)));
        } else if i == 1 {
            assert(i_ccw_table(1) =~= negated_offsets(i_cw_table(0)));
        } else if i == 2 {
            assert(i_ccw_table(2) =~= negated_offsets(i_cw_table(1)));
        }
    } else {
        assert(a == non_i_ccw_table(i) && b == non_i_cw_table(j));
        if i == 0 {
            assert(non_i_ccw_table(0) =~= negated_offsets(non_i_cw_table(3)));
        } else if i == 1 {
            assert(non_i_ccw_table(1) =~= negated_offsets(non_i_cw_table(0)));
        } else if i == 2 {
            assert(non_i_ccw_table(2) =~= negated_offsets(non_i_cw_table(1)));
        } else {
            assert(non_i_ccw_table(3) =~= negated_offsets(non_i_cw_table(2)));
        }
    }
}

/// For the I piece turning counter-clockwise into the right-hand
/// orientation, the first three offsets are the reverse of those of the
/// clockwise turn back, and the last keeps its upward step.
pub proof fn law_i_kicks_reverse_into_right()
    ensures
        ({
            let a = spec_kick_offsets(Tetromino::I, Rotation::Right, RotationCommand::Ccw)->0;
            let b = spec_kick_offsets(Tetromino::I, Rotation::Reverse, RotationCommand::Cw)->0;
            &&& a.len() == 4 && b.len() == 4
            &&& a.subrange(0, 3) == negated_offsets(b).subrange(0, 3)
            &&& a[3] == (b[3].0 * -1, b[3].1)
        }),
{
    let a = spec_kick_offsets(Tetromino::I, Rotation::Right, RotationCommand::Ccw)->0;
    let b = spec_kick_offsets(Tetromino::I, Rotation::Reverse, RotationCommand::Cw)->0;
    assert(a.subrange(0, 3) =~= negated_offsets(b).subrange(0, 3));
}

/// The kicks of J, L, S, T and Z are symmetric left to right: a clockwise
/// turn into `to` tries the offsets of the counter-clockwise turn into the
/// mirrored orientation, reflected.
pub proof fn law_kicks_mirror(kind: Tetromino, to: Rotation)
    requires
        kind != Tetromino::O,
        kind != Tetromino::Mono,
        kind != Tetromino::I,
    ensures
        spec_kick_offsets(kind, to, RotationCommand::Cw) is Some,
        spec_kick_offsets(kind, mirror_rotation(to), RotationCommand::Ccw) is Some,
        spec_kick_offsets(kind, to, RotationCommand::Cw)->0 == mirrored_offsets(
            spec_kick_offsets(kind, mirror_rotation(to), RotationCommand::Ccw)->0,
        ),
{
    let a = spec_kick_offsets(kind, to, RotationCommand::Cw)->0;
    let b = spec_kick_offsets(kind, mirror_rotation(to), RotationCommand::Ccw)->0;
    assert(a =~= mirrored_offsets(b));
}

/// A T-spin counts as a mini exactly when one of the two corners on the
/// side the T points to is open (and the last kick was not the fourth).
/// The side is read off the T's shape: `(dx, dy)` is the direction from
/// the centre of its 3x3 box to the cell that sticks out, the one whose
/// opposite cell is not part of the shape; the two front corners lie beside
/// that cell.
pub proof fn law_t_spin_mini_front_corners(
    is_t_spin: bool,
    last_kick_index: Option<usize>,
    piece: PieceState,
    board: Board,
    dx: int,
    dy: int,
)
    requires
        piece.kind == Tetromino::T,
        (dx == 0 && (dy == 1 || dy == -1)) || (dy == 0 && (dx == 1 || dx == -1)),
        shape_at(Tetromino::T, piece.rotation, 1 + dx, 1 + dy),
        !shape_at(Tetromino::T, piece.rotation, 1 - dx, 1 - dy),
    ensures
        ({
            let cx = piece.x + 1;
            let cy = piece.y + 1;
            spec_t_spin_mini(is_t_spin, last_kick_index, piece, board) == (is_t_spin
                && last_kick_index != Some(3usize) && !(board.blocked(cx + dx + dy, cy + dy + dx)
                && board.blocked(cx + dx - dy, cy + dy - dx)))
        }),
{
}

} // verus!
