use vstd::prelude::*;

use super::board::{Board, bottom_aligned, pushed_up, shifted_down};
use super::game_state::{
    ClearOutcome, GameMode, GameState, LineClearKind, QueueState, SpinKind, SpinState, Stats,
    copy_opt_text, opt_text,
};
use super::grid::{grid_index, lemma_grid_index_bounds, lemma_grid_index_decompose, lemma_row_bounds};
use super::lines::{
    cell_at, count_marked, lemma_count_bounds, lemma_count_split, lemma_marked_rows_len,
    lemma_rows_removed_progress, marked_rows, rows_removed,
};
use super::piece::Cell;
use super::rng::{rng_from_seed, rng_gen_range, rng_gen_u16};

verus! {

/// The first row at or below `y` that holds a gray cell, or the row count
/// when none does.
pub open spec fn first_gray_row(b: Board, y: int) -> int
    decreases b.total() - y,
{
    if y >= b.total() || y < 0 {
        b.total()
    } else if exists|x: int| 0 <= x < b.width && b.at(x, y) == Cell::Gray {
        y
    } else {
        first_gray_row(b, y + 1)
    }
}

/// Height of the garbage stack: rows from the first row holding a gray cell
/// down to the floor, or 0 without gray cells.
pub open spec fn garbage_level(b: Board) -> int {
    b.total() - first_gray_row(b, 0)
}

proof fn lemma_first_gray_row_bounds(b: Board, y: int)
    requires
        0 <= y,
    ensures
        y <= first_gray_row(b, y) <= b.total() || (y > b.total() && first_gray_row(b, y)
            == b.total()),
        first_gray_row(b, y) < b.total() ==> exists|x: int|
            0 <= x < b.width && b.at(x, first_gray_row(b, y)) == Cell::Gray,
    decreases b.total() - y,
{
    if y < b.total() {
        if !(exists|x: int| 0 <= x < b.width && b.at(x, y) == Cell::Gray) {
            lemma_first_gray_row_bounds(b, y + 1);
        }
    }
}

/// Rows from the topmost row holding a gray cell down to the floor.
pub fn grid_get_garbage_level(board: &Board) -> (level: usize)
    requires
        board.wf(),
    ensures
        level == garbage_level(*board),
{
    let total = board.total_height();
    let mut y: usize = 0;
    while y < total
        invariant
            board.wf(),
            total == board.total(),
            y <= total,
            first_gray_row(*board, 0) == first_gray_row(*board, y as int),
        decreases total - y,
    {
        let mut x: usize = 0;
        while x < board.width
            invariant
                board.wf(),
                total == board.total(),
                y < total,
                x <= board.width,
                first_gray_row(*board, 0) == first_gray_row(*board, y as int),
                forall|k: int| 0 <= k < x ==> board.at(k, y as int) != Cell::Gray,
            decreases board.width - x,
        {
            if board.get(x, y) == Cell::Gray {
                assert(first_gray_row(*board, y as int) == y);
                return total - y;
            }
            x += 1;
        }
        y += 1;
    }
    0
}

/// A garbage row: gray everywhere except an empty square at column `hole`.
pub open spec fn garbage_row_at(b: Board, y: int, hole: int) -> bool {
    forall|x: int|
        0 <= x < b.width ==> #[trigger] b.at(x, y) == if x == hole {
            Cell::Empty
        } else {
            Cell::Gray
        }
}

/// Pushes every row up one and fills the bottom row with garbage that has
/// its hole at `hole_pos`.
pub fn grid_add_garbage_line(board: &mut Board, hole_pos: usize)
    requires
        old(board).wf(),
        old(board).total() >= 1,
    ensures
        final(board).wf(),
        final(board).same_shape(old(board)),
        forall|i: int|
            0 <= i < old(board).cells@.len() - old(board).width ==> #[trigger] final(board).cells@[i]
                == old(board).cells@[i + old(board).width],
        garbage_row_at(*final(board), final(board).total() - 1, hole_pos as int),
{
    board.push_line();
    let bottom = board.total_height() - 1;
    let ghost pushed = *board;
    proof {
        lemma_row_bounds(board.width as int, board.total(), bottom as int);
    }
    let mut x: usize = 0;
    while x < board.width
        invariant
            board.wf(),
            board.same_shape(old(board)),
            bottom == board.total() - 1,
            pushed.cells@ == pushed_up(old(board).cells@, old(board).width as int, Cell::Empty),
            pushed.same_shape(old(board)),
            x <= board.width,
            board.cells@.len() == pushed.cells@.len(),
            forall|i: int|
                0 <= i < bottom * board.width ==> #[trigger] board.cells@[i] == pushed.cells@[i],
            forall|k: int|
                0 <= k < x ==> #[trigger] board.at(k, bottom as int) == if k == hole_pos {
                    Cell::Empty
                } else {
                    Cell::Gray
                },
        decreases board.width - x,
    {
        let ghost before = *board;
        if x == hole_pos {
            board.set(x, bottom, Cell::Empty);
        } else {
            board.set(x, bottom, Cell::Gray);
        }
        proof {
            lemma_grid_index_bounds(board.width as int, board.total(), x as int, bottom as int);
            assert forall|i: int| 0 <= i < bottom * board.width implies #[trigger] board.cells@[i]
                == pushed.cells@[i] by {
                assert(board.cells@[i] == before.cells@[i]);
            }
            assert forall|k: int| 0 <= k < x + 1 implies #[trigger] board.at(k, bottom as int) == if k
                == hole_pos {
                Cell::Empty
            } else {
                Cell::Gray
            } by {
                if k < x {
                    assert(grid_index(board.width as int, k, bottom as int) != grid_index(
                        board.width as int,
                        x as int,
                        bottom as int,
                    ));
                    assert(board.at(k, bottom as int) == before.at(k, bottom as int));
                }
            }
        }
        x += 1;
    }
    proof {
        let w = old(board).width as int;
        let len = old(board).cells@.len() as int;
        let b = bottom as int;
        lemma_row_bounds(w, board.total(), b);
        assert(len - w == b * w) by (nonlinear_arith)
            requires
                len == w * (b + 1),
        ;
        assert forall|i: int| 0 <= i < len - w implies #[trigger] board.cells@[i]
            == old(board).cells@[i + w] by {
            assert(board.cells@[i] == pushed.cells@[i]);
            assert(pushed.cells@[i] == pushed_up(old(board).cells@, w, Cell::Empty)[i]);
        }
    }
}

/// The board is `old` pushed up `n` rows: a cell `n` rows further down in
/// `old` is found at each index, as far as `old` reaches.
pub open spec fn pushed_up_by(old: Board, new: Board, shift: int) -> bool {
    forall|j: int|
        0 <= j < old.cells@.len() - shift ==> #[trigger] new.cells@[j] == old.cells@[j + shift]
}

/// Row `r` is a garbage row with its hole in some column (or none, when
/// the hole column lies outside the board).
pub open spec fn is_garbage_row(b: Board, r: int) -> bool {
    exists|hole: int| #[trigger] garbage_row_at(b, r, hole)
}

/// Every row from `from` down to the floor is a garbage row.
pub open spec fn garbage_rows_from(b: Board, from: int) -> bool {
    forall|r: int| from <= r < b.total() && 0 <= r ==> #[trigger] is_garbage_row(b, r)
}

/// How many garbage rows cheese mode raises: enough to bring the garbage
/// stack up to half the visible height.
pub open spec fn garbage_rows_needed(b: Board) -> int {
    let n = b.visible_height / 2 - garbage_level(b);
    if n > 0 {
        n
    } else {
        0
    }
}

/// How the holes of garbage rows laid in turn follow one another, given the
/// hole columns `holes` of the rows in the order they were laid and the run
/// lengths `steps` that were drawn: starting in column `pos` with `left`
/// more rows before the hole moves, a row keeps the hole while rows are
/// left; once none is left, the hole moves to another column of the board
/// (`0..w`) and the next `steps` value (one to three) gives the rows of the
/// new run, this one included. The result is the hole column, the rows left
/// in the run and the number of steps used after the last row; `None` where
/// the holes do not follow the rule.
pub open spec fn hole_runs(holes: Seq<int>, steps: Seq<int>, pos: int, left: int, w: int) -> Option<
    (int, int, int),
>
    decreases holes.len(),
{
    if holes.len() == 0 {
        Some((pos, left, 0))
    } else {
        match hole_runs(holes.drop_last(), steps, pos, left, w) {
            None => None,
            Some((p, l, u)) => {
                let x = holes.last();
                if l > 0 {
                    if x == p {
                        Some((p, l - 1, u))
                    } else {
                        None
                    }
                } else if 0 <= x < w && x != p && 0 <= u < steps.len() && 1 <= steps[u] <= 3 {
                    Some((x, steps[u] - 1, u + 1))
                } else {
                    None
                }
            },
        }
    }
}

/// Where the holes follow the rule, the steps used are among those given,
/// and more steps given change nothing.
pub proof fn lemma_hole_runs_extend(holes: Seq<int>, steps: Seq<int>, s: int, pos: int, left: int, w: int)
    requires
        hole_runs(holes, steps, pos, left, w) is Some,
    ensures
        hole_runs(holes, steps, pos, left, w) matches Some((_, _, u)) && u <= steps.len(),
        hole_runs(holes, steps.push(s), pos, left, w) == hole_runs(holes, steps, pos, left, w),
    decreases holes.len(),
{
    if holes.len() > 0 {
        lemma_hole_runs_extend(holes.drop_last(), steps, s, pos, left, w);
    }
}

/// The garbage rows `before` lays to become `after` have their holes as
/// `hole_runs` says: each stays in its column for the rest of the current
/// run, then moves to another column; the hole column and the rows left in
/// the run are kept in `after`.
#[verifier::opaque]
pub open spec fn garbage_holes_follow(before: GameState, after: GameState) -> bool {
    let rows = garbage_rows_needed(before.board);
    let total = before.board.total();
    exists|holes: Seq<int>, steps: Seq<int>|
        #![trigger hole_runs(holes, steps, before.garbage_hole_pos as int, before.garbage_hole_size as int, before.board.width as int)]
        {
            &&& holes.len() == rows
            &&& forall|k: int|
                0 <= k < rows ==> #[trigger] garbage_row_at(after.board, total - rows + k, holes[k])
            &&& hole_runs(
                holes,
                steps,
                before.garbage_hole_pos as int,
                before.garbage_hole_size as int,
                before.board.width as int,
            ) == Some(
                (after.garbage_hole_pos as int, after.garbage_hole_size as int, steps.len() as int),
            )
        }
}

/// A garbage row pushed up by one row is the same garbage row one row
/// higher.
proof fn lemma_garbage_row_pushed(before: Board, after: Board, r: int, hole: int)
    requires
        before.wf(),
        after.wf(),
        after.same_shape(&before),
        forall|j: int|
            0 <= j < before.cells@.len() - before.width ==> #[trigger] after.cells@[j]
                == before.cells@[j + before.width],
        0 <= r,
        r + 1 < before.total(),
        garbage_row_at(before, r + 1, hole),
    ensures
        garbage_row_at(after, r, hole),
{
    let w = before.width as int;
    let len = before.cells@.len() as int;
    assert forall|x: int| 0 <= x < after.width implies #[trigger] after.at(x, r) == if x == hole {
        Cell::Empty
    } else {
        Cell::Gray
    } by {
        lemma_grid_index_bounds(w, after.total(), x, r);
        lemma_grid_index_bounds(w, after.total(), x, r + 1);
        assert(grid_index(w, x, r) + w == grid_index(w, x, r + 1)) by (nonlinear_arith);
        assert(grid_index(w, x, r) < len - w) by (nonlinear_arith)
            requires
                grid_index(w, x, r) + w == grid_index(w, x, r + 1),
                grid_index(w, x, r + 1) < len,
        ;
        assert(after.at(x, r) == before.at(x, r + 1));
    }
}

/// `after` is `before` with cheese garbage raised: the board is pushed up
/// by the rows needed, the rows that came in from below are garbage rows,
/// and apart from the hole position, the hole run length and the queue
/// seed nothing else changed.
pub open spec fn garbage_spawned(before: GameState, after: GameState) -> bool {
    let rows = garbage_rows_needed(before.board);
    &&& garbage_holes_follow(before, after)
    &&& after.board.wf()
    &&& after.board.same_shape(&before.board)
    &&& pushed_up_by(before.board, after.board, rows * before.board.width)
    &&& garbage_rows_from(after.board, before.board.total() - rows)
    &&& after == (GameState {
        board: after.board,
        garbage_hole_pos: after.garbage_hole_pos,
        garbage_hole_size: after.garbage_hole_size,
        queue: QueueState { seed: after.queue.seed, ..before.queue },
        ..before
    })
}

/// Raises garbage in cheese mode: while the garbage stack is lower than half
/// the visible height, a garbage row is pushed in from below. The hole stays
/// in its column for `garbage_hole_size` rows, then moves to another column
/// drawn from the generator seeded with the queue seed (drawn again while it
/// is the old one; should that happen 2^64 times running, the next column
/// over is taken), and the next change comes one to three rows later. The
/// queue seed then moves on.
pub fn spawn_garbage(game: &mut GameState)
    requires
        old(game).board.wf(),
        old(game).board.width >= 2,
        old(game).board.total() >= 1,
        old(game).board.total() + old(game).garbage_hole_size + 3 * old(game).board.visible_height
            <= usize::MAX,
    ensures
        garbage_spawned(*old(game), *final(game)),
{
    let mut rng = rng_from_seed(game.queue.seed as u64);
    let garbage_amount = grid_get_garbage_level(&game.board);
    let half_y = game.board.visible_height / 2;
    let width = game.board.width;
    let mut hole_pos = game.garbage_hole_pos;
    proof {
        assert(garbage_amount <= game.board.total()) by {
            lemma_first_gray_row_bounds(game.board, 0);
        }
    }
    let mut next_change = garbage_amount + game.garbage_hole_size;
    let mut i = garbage_amount;
    let ghost g = garbage_amount as int;
    let ghost mut shift: int = 0;
    let ghost start = *game;
    let ghost mut holes: Seq<int> = Seq::empty();
    let ghost mut steps: Seq<int> = Seq::empty();
    let ghost pos0 = start.garbage_hole_pos as int;
    let ghost size0 = start.garbage_hole_size as int;
    while i < half_y
        invariant
            game.board.wf(),
            game.board.same_shape(&start.board),
            width == game.board.width,
            width >= 2,
            start == *old(game),
            start.board.wf(),
            *game == (GameState { board: game.board, ..start }),
            g == garbage_level(start.board),
            0 <= g <= start.board.total(),
            half_y == start.board.visible_height / 2,
            g <= i,
            i <= half_y || i == g,
            i <= next_change,
            shift == (i - g) * width,
            next_change <= g + start.garbage_hole_size + 3 * (i - g),
            start.board.total() + start.garbage_hole_size + 3 * start.board.visible_height
                <= usize::MAX,
            pushed_up_by(start.board, game.board, shift),
            garbage_rows_from(game.board, start.board.total() - (i - g)),
            pos0 == start.garbage_hole_pos,
            size0 == start.garbage_hole_size,
            holes.len() == i - g,
            forall|k: int|
                0 <= k < holes.len() ==> #[trigger] garbage_row_at(
                    game.board,
                    game.board.total() - holes.len() + k,
                    holes[k],
                ),
            hole_runs(holes, steps, pos0, size0, width as int) == Some(
                (hole_pos as int, next_change - i, steps.len() as int),
            ),
        decreases half_y - i,
    {
        let ghost prior_pos = hole_pos as int;
        let ghost prior_left = next_change - i;
        let ghost prior_steps = steps;
        if i == next_change {
            let hole_last_pos = hole_pos;
            let mut attempts: u64 = 0;
            hole_pos = rng_gen_range(&mut rng, 0, width);
            while hole_pos == hole_last_pos && attempts < u64::MAX
                invariant
                    width >= 2,
                    hole_pos < width,
                decreases u64::MAX - attempts,
            {
                hole_pos = rng_gen_range(&mut rng, 0, width);
                attempts += 1;
            }
            if hole_pos == hole_last_pos {
                hole_pos = if hole_last_pos + 1 < width {
                    hole_last_pos + 1
                } else {
                    0
                };
            }
            let garbage_step = rng_gen_range(&mut rng, 1, 4);
            next_change += garbage_step;
            proof {
                lemma_hole_runs_extend(holes, steps, garbage_step as int, pos0, size0, width as int);
                steps = steps.push(garbage_step as int);
            }
        }
        let ghost before = game.board;
        grid_add_garbage_line(&mut game.board, hole_pos);
        proof {
            let w = width as int;
            let len = start.board.cells@.len() as int;
            let k = i - g;
            assert(len == w * game.board.total());
            assert(shift >= 0) by (nonlinear_arith)
                requires
                    shift == k * w,
                    k >= 0,
                    w >= 0,
            ;
            assert(shift + w == (k + 1) * w) by (nonlinear_arith)
                requires
                    shift == k * w,
            ;
            assert forall|j: int| 0 <= j < len - (shift + w) implies #[trigger] game.board.cells@[j]
                == start.board.cells@[j + shift + w] by {
                assert(game.board.cells@[j] == before.cells@[j + w]);
                assert(before.cells@[j + w] == start.board.cells@[j + w + shift]);
            }
            assert forall|r: int|
                start.board.total() - (k + 1) <= r < game.board.total() && 0 <= r implies #[trigger] is_garbage_row(game.board, r) by {
                if r == game.board.total() - 1 {
                    assert(garbage_row_at(game.board, r, hole_pos as int));
                } else {
                    assert(is_garbage_row(before, r + 1));
                    let hole = choose|hole: int| #[trigger] garbage_row_at(before, r + 1, hole);
                    lemma_garbage_row_pushed(before, game.board, r, hole);
                    assert(garbage_row_at(game.board, r, hole));
                }
            }
            let old_holes = holes;
            holes = holes.push(hole_pos as int);
            assert(holes.drop_last() =~= old_holes);
            assert forall|q: int| 0 <= q < holes.len() implies #[trigger] garbage_row_at(
                game.board,
                game.board.total() - holes.len() + q,
                holes[q],
            ) by {
                if q == holes.len() - 1 {
                } else {
                    assert(garbage_row_at(before, before.total() - old_holes.len() + q, old_holes[q]));
                    lemma_garbage_row_pushed(
                        before,
                        game.board,
                        game.board.total() - holes.len() + q,
                        old_holes[q],
                    );
                }
            }
            if prior_left == 0 {
                assert(steps[prior_steps.len() as int] == next_change - i);
            }
            assert(hole_runs(holes, steps, pos0, size0, width as int) == Some(
                (hole_pos as int, next_change - (i + 1), steps.len() as int),
            ));
            shift = shift + w;
        }
        i += 1;
    }
    game.garbage_hole_pos = hole_pos;
    game.garbage_hole_size = next_change - i;
    game.queue.seed = rng_gen_u16(&mut rng);
    proof {
        assert(holes.len() == garbage_rows_needed(start.board));
        assert(hole_runs(holes, steps, pos0, size0, width as int) == Some(
            (game.garbage_hole_pos as int, game.garbage_hole_size as int, steps.len() as int),
        ));
        reveal(garbage_holes_follow);
    }
}

/// Fills the two-cell-high side walls of a four-wide well: in rows
/// `0..=amount`, every column outside the four centre columns turns gray.
pub fn add_wide(board: &mut Board, amount: usize)
    requires
        old(board).wf(),
        old(board).width >= 4,
        amount < old(board).total(),
    ensures
        final(board).wf(),
        final(board).same_shape(old(board)),
        forall|x: int, y: int|
            #![trigger final(board).at(x, y)]
            old(board).spec_in_bounds(x, y) ==> final(board).at(x, y) == if y <= amount && (x
                < old(board).width / 2 - 2 || x > old(board).width / 2 + 1) {
                Cell::Gray
            } else {
                old(board).at(x, y)
            },
{
    let hole = board.width / 2 - 2;
    let rows = amount + 1;
    let mut y: usize = 0;
    while y < rows
        invariant
            board.wf(),
            board.same_shape(old(board)),
            hole == old(board).width / 2 - 2,
            rows == amount + 1,
            rows <= board.total(),
            y <= rows,
            forall|px: int, py: int|
                #![trigger board.at(px, py)]
                old(board).spec_in_bounds(px, py) ==> board.at(px, py) == if py < y && (px < hole
                    || px > hole + 3) {
                    Cell::Gray
                } else {
                    old(board).at(px, py)
                },
        decreases rows - y,
    {
        let mut x: usize = 0;
        while x < board.width
            invariant
                board.wf(),
                board.same_shape(old(board)),
                hole == old(board).width / 2 - 2,
                rows <= board.total(),
                y < rows,
                x <= board.width,
                forall|px: int, py: int|
                    #![trigger board.at(px, py)]
                    old(board).spec_in_bounds(px, py) ==> board.at(px, py) == if (py < y || (py
                        == y && px < x)) && (px < hole || px > hole + 3) {
                        Cell::Gray
                    } else {
                        old(board).at(px, py)
                    },
            decreases board.width - x,
        {
            if x < hole || x > hole + 3 {
                let ghost before = *board;
                board.set(x, y, Cell::Gray);
                proof {
                    assert forall|px: int, py: int|
                        #![trigger board.at(px, py)]
                        old(board).spec_in_bounds(px, py) implies board.at(px, py) == if (py < y
                            || (py == y && px < x + 1)) && (px < hole || px > hole + 3) {
                            Cell::Gray
                        } else {
                            old(board).at(px, py)
                        } by {
                        lemma_grid_index_bounds(board.width as int, board.total(), px, py);
                        lemma_grid_index_bounds(board.width as int, board.total(), x as int, y as int);
                        if px != x || py != y {
                            if grid_index(board.width as int, px, py) == grid_index(
                                board.width as int,
                                x as int,
                                y as int,
                            ) {
                                super::grid::lemma_grid_index_unique(
                                    board.width as int,
                                    px,
                                    py,
                                    x as int,
                                    y as int,
                                );
                            }
                            assert(board.at(px, py) == before.at(px, py));
                        }
                    }
                }
            }
            x += 1;
        }
        y += 1;
    }
}

/// Turns the side columns of the top row gray, the wall of a four-wide well.
pub fn spawn_four_wide(game: &mut GameState)
    requires
        old(game).board.wf(),
        old(game).board.width >= 4,
        old(game).board.total() >= 1,
    ensures
        final(game).board.wf(),
        final(game).board.same_shape(&old(game).board),
        forall|x: int, y: int|
            #![trigger final(game).board.at(x, y)]
            old(game).board.spec_in_bounds(x, y) ==> final(game).board.at(x, y) == if y == 0 && (x
                < old(game).board.width / 2 - 2 || x > old(game).board.width / 2 + 1) {
                Cell::Gray
            } else {
                old(game).board.at(x, y)
            },
        *final(game) == (GameState { board: final(game).board, ..*old(game) }),
{
    add_wide(&mut game.board, 0);
}


/// The full rows of a board, as a row predicate.
pub open spec fn full_rows(b: Board) -> spec_fn(int) -> bool {
    |r: int| b.row_full(r)
}

/// How many rows of the board are full.
pub open spec fn full_row_count(b: Board) -> int {
    count_marked(full_rows(b), 0, b.total())
}

/// The cells once every full row is removed and the rows above it have
/// dropped down.
pub open spec fn cleared_cells(b: Board) -> Seq<Cell> {
    rows_removed(b.cells@, b.width as int, b.total(), full_rows(b), Cell::Empty)
}

/// Every cell is empty.
pub open spec fn cells_all_empty(cells: Seq<Cell>) -> bool {
    forall|i: int| 0 <= i < cells.len() ==> #[trigger] cells[i] == Cell::Empty
}

/// The spin a lock counts as.
pub open spec fn spin_kind_of(spin: SpinState) -> SpinKind {
    if spin.is_t_spin {
        if spin.is_mini {
            SpinKind::Mini
        } else {
            SpinKind::TSpin
        }
    } else {
        SpinKind::NoSpin
    }
}

/// The kind of a clear of `n` lines.
pub open spec fn line_clear_kind_of(n: int) -> LineClearKind {
    if n <= 0 {
        LineClearKind::NoClear
    } else if n == 1 {
        LineClearKind::Single
    } else if n == 2 {
        LineClearKind::Double
    } else if n == 3 {
        LineClearKind::Triple
    } else {
        LineClearKind::Tetris
    }
}

/// Damage for the lines themselves: a T-spin sends two per line (two less
/// for a mini), a plain clear one less than its lines, a tetris four.
pub open spec fn line_damage(n: int, t_spin: bool, mini: bool) -> int {
    if 1 <= n <= 3 {
        if t_spin {
            2 * n - if mini {
                2int
            } else {
                0int
            }
        } else {
            n - 1
        }
    } else if n == 4 {
        4
    } else {
        0
    }
}

/// One more damage for each of the combo counts 2, 4, 6, 8 and 11 that
/// `combo` exceeds.
pub open spec fn combo_damage(combo: int) -> int {
    (if combo > 2 {
        1int
    } else {
        0int
    }) + (if combo > 4 {
        1int
    } else {
        0int
    }) + (if combo > 6 {
        1int
    } else {
        0int
    }) + (if combo > 8 {
        1int
    } else {
        0int
    }) + (if combo > 11 {
        1int
    } else {
        0int
    })
}

/// A tetris or a T-spin that clears lines keeps back-to-back going.
pub open spec fn b2b_eligible(n: int, t_spin: bool) -> bool {
    n == 4 || (n > 0 && t_spin)
}

/// The combo after a lock: one more when lines were cleared, else none.
pub open spec fn combo_after_clear(n: int, combo: int) -> int {
    if n > 0 {
        combo + 1
    } else {
        0
    }
}

/// The back-to-back flag after a lock: set by an eligible clear, dropped
/// by any other clear, kept when nothing was cleared.
pub open spec fn b2b_after_clear(n: int, t_spin: bool, b2b: bool) -> bool {
    if b2b_eligible(n, t_spin) {
        true
    } else if n > 0 {
        false
    } else {
        b2b
    }
}

/// The damage a lock sends: ten for a perfect clear, the line damage, the
/// combo bonus and one more for a back-to-back clear.
pub open spec fn damage_of_clear(
    n: int,
    t_spin: bool,
    mini: bool,
    perfect: bool,
    combo: int,
    b2b: bool,
) -> int {
    (if perfect {
        10int
    } else {
        0int
    }) + line_damage(n, t_spin, mini) + combo_damage(combo_after_clear(n, combo)) + (if b2b_eligible(
        n,
        t_spin,
    ) && b2b {
        1int
    } else {
        0int
    })
}

/// The name shown for a clear.
pub open spec fn attack_text_of(n: int, spin: SpinKind, perfect: bool) -> Option<Seq<char>> {
    if perfect {
        Some("PERFECT CLEAR"@)
    } else {
        match spin {
            SpinKind::NoSpin => if n == 1 {
                Some("SINGLE"@)
            } else if n == 2 {
                Some("DOUBLE"@)
            } else if n == 3 {
                Some("TRIPLE"@)
            } else if n == 4 {
                Some("TETRIS"@)
            } else {
                None
            },
            SpinKind::Mini => Some("T-SPIN MINI"@),
            SpinKind::TSpin => if n == 1 {
                Some("T-SPIN SINGLE"@)
            } else if n == 2 {
                Some("T-SPIN DOUBLE"@)
            } else if n == 3 {
                Some("T-SPIN TRIPLE"@)
            } else {
                Some("T-SPIN"@)
            },
        }
    }
}

/// The back-to-back banner: shown for an eligible clear that continues a
/// streak and sends damage.
pub open spec fn b2b_text_of(eligible: bool, b2b: bool, damage: int) -> Option<Seq<char>> {
    if eligible && b2b && damage > 0 {
        Some("B2B"@)
    } else {
        None
    }
}

/// The name of a clear of `lines_cleared` lines with the given spin.
fn build_attack_text(lines_cleared: u8, spin_kind: SpinKind, perfect_clear: bool) -> (r: Option<
    String,
>)
    ensures
        opt_text(r) == attack_text_of(lines_cleared as int, spin_kind, perfect_clear),
{
    if perfect_clear {
        return Some("PERFECT CLEAR".to_owned());
    }
    match spin_kind {
        SpinKind::NoSpin => match lines_cleared {
            0 => None,
            1 => Some("SINGLE".to_owned()),
            2 => Some("DOUBLE".to_owned()),
            3 => Some("TRIPLE".to_owned()),
            4 => Some("TETRIS".to_owned()),
            _ => None,
        },
        SpinKind::Mini => Some("T-SPIN MINI".to_owned()),
        SpinKind::TSpin => match lines_cleared {
            0 => Some("T-SPIN".to_owned()),
            1 => Some("T-SPIN SINGLE".to_owned()),
            2 => Some("T-SPIN DOUBLE".to_owned()),
            3 => Some("T-SPIN TRIPLE".to_owned()),
            _ => Some("T-SPIN".to_owned()),
        },
    }
}

/// Whether every cell of the storage is empty.
fn all_cells_empty(cells: &Vec<Cell>) -> (r: bool)
    ensures
        r == cells_all_empty(cells@),
{
    let mut i: usize = 0;
    while i < cells.len()
        invariant
            i <= cells@.len(),
            forall|k: int| 0 <= k < i ==> #[trigger] cells@[k] == Cell::Empty,
        decreases cells@.len() - i,
    {
        if cells[i] != Cell::Empty {
            return false;
        }
        i += 1;
    }
    true
}

/// The indices of the full rows, from the top down.
pub(crate) fn collect_full_rows(board: &Board) -> (rows: Vec<usize>)
    requires
        board.wf(),
    ensures
        rows@.map_values(|r: usize| r as int) == marked_rows(full_rows(*board), 0, board.total()),
{
    let ghost marked = full_rows(*board);
    let total = board.total_height();
    let mut rows: Vec<usize> = Vec::new();
    let mut y: usize = 0;
    while y < total
        invariant
            board.wf(),
            marked == full_rows(*board),
            total == board.total(),
            y <= total,
            rows@.map_values(|r: usize| r as int) == marked_rows(marked, 0, y as int),
        decreases total - y,
    {
        if board.is_line_full(y) {
            let ghost before = rows@;
            rows.push(y);
            assert(rows@.map_values(|r: usize| r as int) =~= before.map_values(|r: usize| r as int).push(
                y as int,
            ));
        }
        y += 1;
    }
    rows
}

/// Removes every full row of the board, top down, and the same rows of the
/// highlight overlay when `highlight_clear` is on. Returns how many rows
/// went.
fn remove_full_rows(game: &mut GameState) -> (n: u8)
    requires
        old(game).wf(),
        old(game).board.width > 0 || old(game).board.total() == 0,
        full_row_count(old(game).board) <= 255,
    ensures
        n == full_row_count(old(game).board),
        n == 0 ==> *final(game) == *old(game),
        final(game).wf(),
        final(game).board.same_shape(&old(game).board),
        final(game).board.cells@ == cleared_cells(old(game).board),
        old(game).highlight_clear ==> final(game).highlights.cells@ == rows_removed(
            old(game).highlights.cells@,
            old(game).board.width as int,
            old(game).board.total(),
            full_rows(old(game).board),
            0u8,
        ),
        !old(game).highlight_clear ==> final(game).highlights == old(game).highlights,
        *final(game) == (GameState {
            board: final(game).board,
            highlights: final(game).highlights,
            ..*old(game)
        }),
{
    let ghost g = *game;
    let ghost marked = full_rows(g.board);
    let total = game.board.total_height();
    let width = game.board.width;
    let mut lines_cleared: u8 = 0;
    let mut y: usize = 0;
    while y < total
        invariant
            g.wf(),
            marked == full_rows(g.board),
            total == g.board.total(),
            width == g.board.width,
            width > 0 || total == 0,
            y <= total,
            full_row_count(g.board) <= 255,
            game.board.wf(),
            game.board.same_shape(&g.board),
            game.board.cells@ == rows_removed(g.board.cells@, width as int, y as int, marked, Cell::Empty),
            g.highlight_clear ==> game.highlights.cells@ == rows_removed(
                g.highlights.cells@,
                width as int,
                y as int,
                marked,
                0u8,
            ),
            game.highlights.wf(),
            game.highlights.width == width,
            game.highlights.total_height == total,
            !g.highlight_clear ==> game.highlights == g.highlights,
            lines_cleared == count_marked(marked, 0, y as int),
            lines_cleared == 0 ==> *game == g,
            *game == (GameState { board: game.board, highlights: game.highlights, ..g }),
        decreases total - y,
    {
        proof {
            let w = width as int;
            lemma_rows_removed_progress(g.board.cells@, w, total as int, y as int, marked, Cell::Empty);
            assert forall|x: int| 0 <= x < w implies #[trigger] game.board.at(x, y as int)
                == g.board.at(x, y as int) by {
                lemma_grid_index_bounds(w, total as int, x, y as int);
                assert(grid_index(w, 0, y as int) <= grid_index(w, x, y as int));
            }
            assert(marked(y as int) == g.board.row_full(y as int));
            if g.board.row_full(y as int) {
                assert forall|x: int| 0 <= x < w implies #[trigger] game.board.at(x, y as int)
                    != Cell::Empty by {
                    assert(g.board.at(x, y as int) != Cell::Empty);
                }
            }
            if game.board.row_full(y as int) {
                assert forall|x: int| 0 <= x < w implies #[trigger] g.board.at(x, y as int)
                    != Cell::Empty by {
                    assert(game.board.at(x, y as int) != Cell::Empty);
                }
            }
            lemma_count_split(marked, 0, y as int + 1, total as int);
            lemma_count_bounds(marked, y as int + 1, total as int);
        }
        if game.board.is_line_full(y) {
            game.board.clear_line(y);
            if game.highlight_clear {
                game.highlights.clear_line(y);
            }
            lines_cleared += 1;
        }
        y += 1;
    }
    proof {
        lemma_count_bounds(marked, 0, total as int);
    }
    lines_cleared
}

/// Scores a lock that cleared `lines` lines into the statistics and
/// returns the damage it sends.
fn score_clear(stats: &mut Stats, lines: u8, is_t_spin: bool, is_mini: bool, perfect_clear: bool) -> (damage: i32)
    requires
        lines > 0 ==> old(stats).combo < u32::MAX,
        old(stats).lines + lines <= u32::MAX,
    ensures
        ({
            let n = lines as int;
            let s = *old(stats);
            let combo = combo_after_clear(n, s.combo as int);
            let b2b = b2b_after_clear(n, is_t_spin, s.b2b);
            let d = damage_of_clear(n, is_t_spin, is_mini, perfect_clear, s.combo as int, s.b2b);
            &&& damage == d
            &&& *final(stats) == (Stats {
                damage: vstd::wrapping::u32_specs::wrapping_add(s.damage, d as u32),
                lines: (s.lines + n) as u32,
                b2b: b2b,
                perfect_clear: s.perfect_clear || perfect_clear,
                combo: combo as u32,
                ..s
            })
        }),
{
    let mut damage_delta: i32 = 0;
    if perfect_clear {
        damage_delta += 10;
        stats.perfect_clear = true;
    }
    if lines > 0 {
        stats.combo += 1;
        match lines {
            1 | 2 | 3 => {
                if is_t_spin {
                    damage_delta += (lines as i32) * 2;
                    if is_mini {
                        damage_delta -= 2;
                    }
                } else {
                    damage_delta += (lines as i32) - 1;
                }
            },
            4 => {
                damage_delta += 4;
            },
            _ => {},
        }
    } else {
        stats.combo = 0;
    }
    let combo = stats.combo;
    if combo > 2 {
        damage_delta += 1;
    }
    if combo > 4 {
        damage_delta += 1;
    }
    if combo > 6 {
        damage_delta += 1;
    }
    if combo > 8 {
        damage_delta += 1;
    }
    if combo > 11 {
        damage_delta += 1;
    }
    let is_b2b_eligible = lines == 4 || (lines > 0 && is_t_spin);
    if is_b2b_eligible {
        if stats.b2b {
            damage_delta += 1;
        } else {
            stats.b2b = true;
        }
    } else if lines > 0 {
        stats.b2b = false;
    }
    stats.lines += lines as u32;
    stats.damage = stats.damage.wrapping_add(damage_delta as u32);
    damage_delta
}

/// What resolving a lock that clears `n` rows needs of the game: a well
/// formed board with columns (unless it has no rows), at most 255 rows
/// cleared at once, room in the combo and line counters, and the board
/// sizes cheese garbage and four-wide walls need when they are laid.
pub open spec fn clear_resolvable(g: GameState, n: int) -> bool {
    &&& g.wf()
    &&& g.board.width > 0 || g.board.total() == 0
    &&& n <= 255
    &&& n > 0 ==> g.stats.combo < u32::MAX
    &&& g.stats.lines + n <= u32::MAX
    &&& g.mode == GameMode::Cheese && n == 0 ==> {
        &&& g.board.width >= 2
        &&& g.board.total() >= 1
        &&& g.board.total() + g.garbage_hole_size + 3 * g.board.visible_height <= usize::MAX
    }
    &&& g.mode == GameMode::FourWide && n > 0 ==> {
        &&& g.board.width >= 4
        &&& n < g.board.total()
    }
}

/// `f` is `g` once its full rows are cleared and the lock is scored, with
/// `outcome` describing the clear: see `resolve_lock_and_clears`.
pub open spec fn clear_resolved(g: GameState, f: GameState, outcome: ClearOutcome) -> bool {
    let b = g.board;
    let n = full_row_count(b);
    let w = b.width as int;
    let cleared = cleared_cells(b);
    let perfect = cells_all_empty(cleared);
    let eligible = b2b_eligible(n, g.spin.is_t_spin);
    let combo = combo_after_clear(n, g.stats.combo as int);
    let b2b = b2b_after_clear(n, g.spin.is_t_spin, g.stats.b2b);
    let damage = damage_of_clear(
        n,
        g.spin.is_t_spin,
        g.spin.is_mini,
        perfect,
        g.stats.combo as int,
        g.stats.b2b,
    );
    let cheese_garbage = g.mode == GameMode::Cheese && n == 0;
    let four_wide_walls = g.mode == GameMode::FourWide && n > 0;
    
    &&& outcome.lines_cleared == n
    &&& outcome.line_clear_kind == line_clear_kind_of(n)
    &&& outcome.spin_kind == spin_kind_of(g.spin)
    &&& outcome.perfect_clear == perfect
    &&& outcome.damage_delta == damage
    &&& outcome.combo_after == combo
    &&& outcome.b2b_after == b2b
    &&& opt_text(outcome.attack_text) == attack_text_of(n, spin_kind_of(g.spin), perfect)
    &&& opt_text(outcome.b2b_text) == b2b_text_of(eligible, b2b, damage)
    &&& outcome.cleared_lines@.map_values(|r: usize| r as int) == marked_rows(
        full_rows(b),
        0,
        b.total(),
    )
    &&& f.wf()
    &&& f.board.same_shape(&b)
    &&& !cheese_garbage && !four_wide_walls ==> f.board.cells@ == cleared
    &&& four_wide_walls ==> forall|x: int, y: int|
        #![trigger f.board.at(x, y)]
        b.spec_in_bounds(x, y) ==> f.board.at(x, y) == if y <= n && (x < w / 2 - 2 || x > w
            / 2 + 1) {
            Cell::Gray
        } else {
            cell_at(cleared, w, x, y)
        }
    &&& cheese_garbage ==> garbage_spawned(GameState { stats: f.stats, ..g }, f)
    &&& !cheese_garbage ==> f.garbage_hole_pos == g.garbage_hole_pos
        && f.garbage_hole_size == g.garbage_hole_size && f.queue == g.queue
    &&& g.highlight_clear ==> f.highlights.cells@ == rows_removed(
        g.highlights.cells@,
        w,
        b.total(),
        full_rows(b),
        0u8,
    )
    &&& !g.highlight_clear ==> f.highlights == g.highlights
    &&& f.stats == (Stats {
        damage: vstd::wrapping::u32_specs::wrapping_add(g.stats.damage, damage as u32),
        lines: (g.stats.lines + n) as u32,
        b2b: b2b,
        perfect_clear: g.stats.perfect_clear || perfect,
        combo: combo as u32,
        lost: g.stats.lost || (g.mode == GameMode::FourWide && n == 0),
        attack_text: f.stats.attack_text,
        b2b_text: f.stats.b2b_text,
        ..g.stats
    })
    &&& opt_text(f.stats.attack_text) == attack_text_of(n, spin_kind_of(g.spin), perfect)
    &&& opt_text(f.stats.b2b_text) == b2b_text_of(eligible, b2b, damage)
    &&& f == (GameState {
        board: f.board,
        highlights: f.highlights,
        stats: f.stats,
        garbage_hole_pos: f.garbage_hole_pos,
        garbage_hole_size: f.garbage_hole_size,
        queue: f.queue,
        ..g
    })
}

/// Locks in the result of a placed piece: removes every full row (the rows
/// above drop down; the highlight overlay follows when `highlight_clear` is
/// on), scores the clear (combo, back-to-back, damage, lines, the texts
/// shown), and applies the mode: cheese raises garbage after a lock that
/// clears nothing, four-wide ends the game after such a lock and otherwise
/// grows the well's walls by the lines cleared.
#[verifier::rlimit(40)]
#[verifier::spinoff_prover]
pub fn resolve_lock_and_clears(game: &mut GameState) -> (outcome: ClearOutcome)
    requires
        clear_resolvable(*old(game), full_row_count(old(game).board)),
    ensures
        clear_resolved(*old(game), *final(game), outcome),
{
    let ghost g = *game;
    let is_t_spin = game.spin.is_t_spin;
    let is_mini = game.spin.is_mini;
    let spin_kind = if is_t_spin {
        if is_mini {
            SpinKind::Mini
        } else {
            SpinKind::TSpin
        }
    } else {
        SpinKind::NoSpin
    };
    let cleared_lines = collect_full_rows(&game.board);
    let lines_cleared = remove_full_rows(game);
    let line_clear_kind = match lines_cleared {
        0 => LineClearKind::NoClear,
        1 => LineClearKind::Single,
        2 => LineClearKind::Double,
        3 => LineClearKind::Triple,
        _ => LineClearKind::Tetris,
    };
    let perfect_clear = all_cells_empty(&game.board.cells);
    let damage_delta = score_clear(&mut game.stats, lines_cleared, is_t_spin, is_mini, perfect_clear);
    let is_b2b_eligible = lines_cleared == 4 || (lines_cleared > 0 && is_t_spin);
    let attack_text = build_attack_text(lines_cleared, spin_kind, perfect_clear);
    let b2b_text = if is_b2b_eligible && game.stats.b2b && damage_delta > 0 {
        Some("B2B".to_owned())
    } else {
        None
    };
    game.stats.attack_text = copy_opt_text(&attack_text);
    game.stats.b2b_text = copy_opt_text(&b2b_text);
    let ghost mid = *game;
    match game.mode {
        GameMode::Cheese => {
            if lines_cleared == 0 {
                spawn_garbage(game);
            }
        },
        GameMode::FourWide => {
            if lines_cleared == 0 {
                game.stats.lost = true;
            } else {
                add_wide(&mut game.board, lines_cleared as usize);
            }
        },
        _ => {},
    }
    let outcome = ClearOutcome {
        lines_cleared,
        line_clear_kind,
        spin_kind,
        perfect_clear,
        damage_delta,
        combo_after: game.stats.combo,
        b2b_after: game.stats.b2b,
        attack_text,
        b2b_text,
        cleared_lines,
    };
    outcome
}

/// What the lines of a clear send, with no perfect clear, no combo bonus
/// (at most a second clear in a row) and no back-to-back bonus: a T-spin two
/// per line, a mini T-spin two fewer, a plain clear of one to three lines
/// one less than its lines, a tetris four.
pub proof fn law_clear_damage(g: GameState, f: GameState, outcome: ClearOutcome)
    requires
        clear_resolved(g, f, outcome),
        !outcome.perfect_clear,
        outcome.combo_after <= 2,
        !g.stats.b2b,
    ensures
        g.spin.is_t_spin && !g.spin.is_mini && 1 <= outcome.lines_cleared <= 3
            ==> outcome.damage_delta == 2 * outcome.lines_cleared,
        g.spin.is_t_spin && g.spin.is_mini && 1 <= outcome.lines_cleared <= 3
            ==> outcome.damage_delta == 2 * outcome.lines_cleared - 2,
        !g.spin.is_t_spin && 1 <= outcome.lines_cleared <= 3 ==> outcome.damage_delta
            == outcome.lines_cleared - 1,
        outcome.lines_cleared == 4 ==> outcome.damage_delta == 4,
        outcome.lines_cleared == 0 ==> outcome.damage_delta == 0,
{
}

/// A T-spin sends more than the same clear without the spin: two more for
/// a double, three more for a triple, one more for a single.
pub proof fn law_t_spin_sends_more(n: int, combo: int, b2b: bool)
    requires
        1 <= n <= 3,
    ensures
        damage_of_clear(n, true, false, false, combo, b2b) - damage_of_clear(
            n,
            false,
            false,
            false,
            combo,
            false,
        ) == n + 1 + if b2b {
            1int
        } else {
            0int
        },
{
}

} // verus!
