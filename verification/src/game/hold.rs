use vstd::prelude::*;

use super::game_state::{GameState, HoldState};
use super::piece::{PieceState, Rotation};

verus! {

/// Why a hold was refused.
#[derive(Debug, Clone, Copy, PartialEq, Eq, Structural)]
pub enum HoldError {
    Locked,
}

/// The hold is refused: a swap already happened this turn and hold is
/// limited.
pub open spec fn hold_locked(game: GameState) -> bool {
    game.hold.swapped_this_turn && !game.hold.infinite_hold
}

/// The game after a successful hold: the current piece goes to the hold
/// slot and comes back at the spawn position, turned to spawn orientation,
/// as the previously held piece or, with an empty slot, as the next queued
/// piece (the kind is kept when the queue is empty too).
pub open spec fn after_hold(game: GameState) -> GameState {
    let spawned = PieceState {
        x: (game.board.width / 2 - 2) as i32,
        y: (game.board.hidden_rows - 2) as i32,
        rotation: Rotation::Spawn,
        ..game.current
    };
    let swapped = if game.hold.infinite_hold {
        game.hold.swapped_this_turn
    } else {
        true
    };
    match game.hold.piece {
        Some(held) => GameState {
            current: PieceState { kind: held, ..spawned },
            hold: HoldState {
                piece: Some(game.current.kind),
                swapped_this_turn: swapped,
                ..game.hold
            },
            ..game
        },
        None => GameState {
            current: if game.queue.visible@.len() > 0 {
                PieceState { kind: game.queue.visible@[0], ..spawned }
            } else {
                spawned
            },
            hold: HoldState {
                piece: Some(game.current.kind),
                swapped_this_turn: swapped,
                ..game.hold
            },
            ..game
        },
    }
}

/// Swaps the current piece with the hold slot.
pub fn hold_swap(game: &mut GameState) -> (r: Result<(), HoldError>)
    requires
        old(game).board.wf(),
    ensures
        r is Err <==> hold_locked(*old(game)),
        r is Err ==> r == Err::<(), HoldError>(HoldError::Locked) && *final(game) == *old(game),
        r is Ok ==> {
            let expected = after_hold(*old(game));
            &&& final(game).current == expected.current
            &&& final(game).hold == expected.hold
            &&& final(game).queue.seed == old(game).queue.seed
            &&& final(game).queue.mode == old(game).queue.mode
            &&& final(game).queue.visible@ == (if old(game).hold.piece is None
                && old(game).queue.visible@.len() > 0 {
                old(game).queue.visible@.drop_first()
            } else {
                old(game).queue.visible@
            })
            &&& *final(game) == (GameState {
                current: final(game).current,
                hold: final(game).hold,
                queue: final(game).queue,
                ..*old(game)
            })
        },
{
    if game.hold.swapped_this_turn && !game.hold.infinite_hold {
        return Err(HoldError::Locked);
    }
    let x = game.board.spawn_x();
    let y = game.board.spawn_y();
    game.current.x = x;
    game.current.y = y;
    game.current.rotation = Rotation::Spawn;
    let current_kind = game.current.kind;
    if let Some(held_piece) = game.hold.piece {
        game.hold.piece = Some(current_kind);
        game.current.kind = held_piece;
    } else {
        game.hold.piece = Some(current_kind);
        if game.queue.visible.len() > 0 {
            game.current.kind = game.queue.visible.remove(0);
        }
    }
    if !game.hold.infinite_hold {
        game.hold.swapped_this_turn = true;
    }
    Ok(())
}

/// With infinite hold and a held piece, holding twice brings back the
/// piece and the held piece it started with, at the spawn position.
pub proof fn law_hold_twice_restores(g: GameState)
    requires
        g.hold.infinite_hold,
        g.hold.piece is Some,
    ensures
        after_hold(after_hold(g)).current.kind == g.current.kind,
        after_hold(after_hold(g)).hold.piece == g.hold.piece,
        after_hold(after_hold(g)).hold.swapped_this_turn == g.hold.swapped_this_turn,
        after_hold(after_hold(g)).current.rotation == Rotation::Spawn,
        after_hold(after_hold(g)).queue == g.queue,
{
}

} // verus!
