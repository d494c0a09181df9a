use vstd::prelude::*;

use std::collections::VecDeque;

use super::bag::QueueGenerator;
use super::game_state::GameState;
use super::game_state::copy_vec;

verus! {

/// One undo step: the game, the queue generator and the gravity
/// accumulator.
#[derive(Debug, Clone, PartialEq, Eq)]
pub struct UndoSnapshot {
    pub game: GameState,
    pub queue_generator: QueueGenerator,
    pub gravity_accum: u32,
}

impl UndoSnapshot {
    /// Same game, generator and accumulator, compared by contents.
    pub open spec fn same_as(&self, other: &UndoSnapshot) -> bool {
        &&& self.game.same_as(&other.game)
        &&& self.queue_generator.same_as(&other.queue_generator)
        &&& self.gravity_accum == other.gravity_accum
    }

    /// A snapshot holding copies of the given state.
    pub fn new(game: &GameState, queue_generator: &QueueGenerator, gravity_accum: u32) -> (s: Self)
        ensures
            s.game.same_as(game),
            s.queue_generator.same_as(queue_generator),
            s.gravity_accum == gravity_accum,
    {
        Self {
            game: game.duplicate(),
            queue_generator: QueueGenerator {
                mode: queue_generator.mode,
                seed: queue_generator.seed,
                static_sequence: copy_vec(&queue_generator.static_sequence),
            },
            gravity_accum,
        }
    }

    /// A copy of the snapshot.
    pub fn duplicate(&self) -> (s: Self)
        ensures
            s.same_as(self),
    {
        Self::new(&self.game, &self.queue_generator, self.gravity_accum)
    }
}

/// The snapshots and cursor after pushing `s`: the entries at and after the
/// cursor are dropped, the oldest entry too when `capacity` is reached, and
/// the cursor ends past the new entry.
pub open spec fn pushed(snaps: Seq<UndoSnapshot>, cursor: int, capacity: int, s: UndoSnapshot) -> (
    Seq<UndoSnapshot>,
    int,
) {
    let kept = snaps.take(cursor);
    let trimmed = if kept.len() >= capacity && kept.len() > 0 {
        kept.drop_first()
    } else {
        kept
    };
    (trimmed.push(s), trimmed.len() as int + 1)
}

/// Undo and redo history of snapshots with a cursor.
pub struct History {
    pub snapshots: VecDeque<UndoSnapshot>,
    pub cursor: usize,
    pub capacity: usize,
}

impl History {
    /// The cursor never points past the stored snapshots.
    pub open spec fn wf(&self) -> bool {
        self.cursor <= self.snapshots@.len()
    }

    /// An empty history.
    pub fn new(capacity: usize) -> (h: Self)
        ensures
            h.wf(),
            h.snapshots@ == Seq::<UndoSnapshot>::empty(),
            h.cursor == 0,
            h.capacity == capacity,
    {
        History { snapshots: VecDeque::with_capacity(capacity), cursor: 0, capacity }
    }

    /// Records a snapshot, discarding everything that could still be redone.
    pub fn push(&mut self, snapshot: UndoSnapshot)
        requires
            old(self).wf(),
        ensures
            final(self).wf(),
            final(self).capacity == old(self).capacity,
            (final(self).snapshots@, final(self).cursor as int) == pushed(
                old(self).snapshots@,
                old(self).cursor as int,
                old(self).capacity as int,
                snapshot,
            ),
    {
        while self.snapshots.len() > self.cursor
            invariant
                self.cursor == old(self).cursor,
                self.capacity == old(self).capacity,
                self.cursor <= self.snapshots@.len() <= old(self).snapshots@.len(),
                self.snapshots@ == old(self).snapshots@.take(self.snapshots@.len() as int),
            decreases self.snapshots@.len(),
        {
            self.snapshots.pop_back();
        }
        assert(self.snapshots@ =~= old(self).snapshots@.take(old(self).cursor as int));
        if self.snapshots.len() >= self.capacity {
            self.snapshots.pop_front();
        }
        self.snapshots.push_back(snapshot);
        self.cursor = self.snapshots.len();
    }

    /// Steps back: the snapshot just before the cursor, or `None` at the
    /// start.
    pub fn undo(&mut self) -> (r: Option<UndoSnapshot>)
        requires
            old(self).wf(),
        ensures
            final(self).wf(),
            final(self).snapshots@ == old(self).snapshots@,
            final(self).capacity == old(self).capacity,
            old(self).cursor == 0 ==> r is None && final(self).cursor == 0,
            old(self).cursor > 0 ==> final(self).cursor == old(self).cursor - 1 && r is Some
                && r->0.same_as(&old(self).snapshots@[old(self).cursor - 1]),
    {
        if self.cursor == 0 {
            return None;
        }
        self.cursor -= 1;
        Some(self.snapshots[self.cursor].duplicate())
    }

    /// Steps forward: the snapshot at the cursor, or `None` at the end.
    pub fn redo(&mut self) -> (r: Option<UndoSnapshot>)
        requires
            old(self).wf(),
        ensures
            final(self).wf(),
            final(self).snapshots@ == old(self).snapshots@,
            final(self).capacity == old(self).capacity,
            old(self).cursor >= old(self).snapshots@.len() ==> r is None && final(self).cursor
                == old(self).cursor,
            old(self).cursor < old(self).snapshots@.len() ==> final(self).cursor == old(self).cursor
                + 1 && r is Some && r->0.same_as(&old(self).snapshots@[old(self).cursor as int]),
    {
        if self.cursor >= self.snapshots.len() {
            return None;
        }
        let result = self.snapshots[self.cursor].duplicate();
        self.cursor += 1;
        Some(result)
    }
}

/// After a push, the newest snapshot sits just before the cursor, so the
/// next undo gives back exactly what was pushed, and nothing can be redone.
pub proof fn law_push_then_undo(snaps: Seq<UndoSnapshot>, cursor: int, capacity: int, s: UndoSnapshot)
    requires
        0 <= cursor <= snaps.len(),
    ensures
        ({
            let (after, c) = pushed(snaps, cursor, capacity, s);
            &&& c == after.len()
            &&& c >= 1
            &&& after[c - 1] == s
        }),
{
}

/// Pushing keeps at most `capacity` snapshots once the history holds no
/// more than that (for a capacity of at least one).
pub proof fn law_push_respects_capacity(
    snaps: Seq<UndoSnapshot>,
    cursor: int,
    capacity: int,
    s: UndoSnapshot,
)
    requires
        0 <= cursor <= snaps.len(),
        snaps.len() <= capacity,
        capacity >= 1,
    ensures
        pushed(snaps, cursor, capacity, s).0.len() <= capacity,
{
}

/// Pushing after undoing discards the undone snapshots: the earlier
/// entries before the cursor are kept in order (except the oldest, at
/// capacity) and the cursor lands at the end.
pub proof fn law_push_discards_redo(snaps: Seq<UndoSnapshot>, cursor: int, capacity: int, s: UndoSnapshot)
    requires
        0 <= cursor <= snaps.len(),
        cursor < capacity,
    ensures
        pushed(snaps, cursor, capacity, s).0 == snaps.take(cursor).push(s),
        pushed(snaps, cursor, capacity, s).1 == cursor + 1,
{
}

} // verus!
