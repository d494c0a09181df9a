use vstd::prelude::*;

use rand::rngs::SmallRng;

use super::board::{Board, lemma_at_after_set};
use super::bag::QueueGenerator;
use super::game_state::{
    ClearFlashState, GameMode, GameState, GravityState, HoldState, LockDelayState, QueueState,
    SpinState, Stats,
};
use super::scoring::garbage_row_at;
use super::grid::{grid_index, lemma_grid_index_bounds, lemma_grid_index_decompose, lemma_row_bounds};
use super::rng::{rng_from_seed, rng_gen_range, rng_gen_u16, rng_shuffle_range};
use super::piece::{
    Cell, PieceState, Rotation, Tetromino, lemma_mirrored_cell_involution, lemma_mirrored_piece_involution,
    mirrored_cell, mirrored_piece, spec_mirrored_cell, spec_mirrored_piece,
};

verus! {

/// `new` is `old` reflected left to right, each cell's colour mirrored too.
pub open spec fn board_mirror_of(new: Board, old: Board) -> bool {
    &&& new.same_shape(&old)
    &&& new.cells@.len() == old.cells@.len()
    &&& forall|x: int, y: int|
        0 <= x < old.width && 0 <= y < old.total() ==> #[trigger] new.at(x, y) == spec_mirrored_cell(
            old.at(old.width - 1 - x, y),
        )
}

/// Reflects the board left to right; J and L, S and Z cells trade colours.
fn mirror_board(board: &mut Board)
    requires
        old(board).wf(),
    ensures
        final(board).wf(),
        board_mirror_of(*final(board), *old(board)),
{
    let w = board.width;
    let h = board.total_height();
    let mut new_cells: Vec<Cell> = Vec::new();
    let mut y: usize = 0;
    let mut row_start: usize = 0;
    while y < h
        invariant
            board.wf(),
            *board == *old(board),
            w == board.width,
            h == board.total(),
            y <= h,
            row_start == y * w,
            new_cells@.len() == row_start,
            forall|a: int, b: int|
                0 <= a < w && 0 <= b < y ==> #[trigger] new_cells@[grid_index(w as int, a, b)]
                    == spec_mirrored_cell(board.at(w - 1 - a, b)),
        decreases h - y,
    {
        proof {
            lemma_row_bounds(w as int, h as int, y as int);
        }
        let mut x: usize = 0;
        while x < w
            invariant
                board.wf(),
                *board == *old(board),
                w == board.width,
                h == board.total(),
                y < h,
                x <= w,
                row_start == y * w,
                row_start + w <= w * h,
                new_cells@.len() == row_start + x,
                forall|a: int, b: int|
                    0 <= a < w && 0 <= b < y ==> #[trigger] new_cells@[grid_index(w as int, a, b)]
                        == spec_mirrored_cell(board.at(w - 1 - a, b)),
                forall|a: int|
                    0 <= a < x ==> #[trigger] new_cells@[row_start + a] == spec_mirrored_cell(
                        board.at(w - 1 - a, y as int),
                    ),
            decreases w - x,
        {
            let v = mirrored_cell(board.cells[row_start + (w - 1 - x)]);
            let ghost prev = new_cells@;
            new_cells.push(v);
            proof {
                assert forall|a: int, b: int|
                    0 <= a < w && 0 <= b < y implies #[trigger] new_cells@[grid_index(
                    w as int,
                    a,
                    b,
                )] == spec_mirrored_cell(board.at(w - 1 - a, b)) by {
                    lemma_grid_index_bounds(w as int, y as int, a, b);
                    assert(w * y == y * w) by (nonlinear_arith);
                    assert(new_cells@[grid_index(w as int, a, b)] == prev[grid_index(
                        w as int,
                        a,
                        b,
                    )]);
                }
                assert(board.at(w - 1 - x, y as int) == board.cells@[row_start + (w - 1 - x)]);
            }
            x += 1;
        }
        proof {
            assert forall|a: int, b: int|
                0 <= a < w && 0 <= b < y + 1 implies #[trigger] new_cells@[grid_index(
                w as int,
                a,
                b,
            )] == spec_mirrored_cell(board.at(w - 1 - a, b)) by {
                if b == y {
                    assert(grid_index(w as int, a, b) == row_start + a);
                } else {
                    lemma_grid_index_bounds(w as int, y as int, a, b);
                }
            }
        }
        y += 1;
        row_start = row_start + w;
    }
    proof {
        assert(h * w == w * h) by (nonlinear_arith);
    }
    board.cells = new_cells;
    proof {
        assert forall|x: int, y: int|
            0 <= x < board.width && 0 <= y < board.total() implies #[trigger] board.at(x, y)
            == spec_mirrored_cell(old(board).at(board.width - 1 - x, y)) by {
            assert(board.at(x, y) == new_cells@[grid_index(w as int, x, y)]);
        }
    }
}

/// Mirroring a board twice gives back the board it started from.
pub proof fn lemma_board_mirror_twice(a: Board, b: Board, c: Board)
    requires
        a.wf(),
        board_mirror_of(b, a),
        board_mirror_of(c, b),
    ensures
        c.same_shape(&a),
        c.cells@ == a.cells@,
{
    assert forall|i: int| 0 <= i < c.cells@.len() implies c.cells@[i] == a.cells@[i] by {
        if a.width > 0 {
            lemma_grid_index_decompose(a.width as int, a.total(), i);
            let x = i % (a.width as int);
            let y = i / (a.width as int);
            assert(c.at(x, y) == spec_mirrored_cell(b.at(a.width - 1 - x, y)));
            assert(b.at(a.width - 1 - x, y) == spec_mirrored_cell(a.at(x, y)));
            lemma_mirrored_cell_involution(a.at(x, y));
        } else {
            assert(a.width * a.total() == 0) by (nonlinear_arith)
                requires
                    a.width == 0,
            ;
        }
    }
    assert(c.cells@ =~= a.cells@);
}

/// The piece kinds of `q`, each mirrored.
pub open spec fn mirrored_pieces(q: Seq<Tetromino>) -> Seq<Tetromino> {
    q.map_values(|p: Tetromino| spec_mirrored_piece(p))
}

/// The held piece, mirrored.
pub open spec fn mirrored_hold(p: Option<Tetromino>) -> Option<Tetromino> {
    match p {
        Some(k) => Some(spec_mirrored_piece(k)),
        None => None,
    }
}

/// Reflects the playfield, the highlight overlay, the queue and the held
/// piece left to right, so that the game continues as its mirror image.
pub fn mirror_field_and_queue(game: &mut GameState)
    requires
        old(game).wf(),
    ensures
        final(game).wf(),
        board_mirror_of(final(game).board, old(game).board),
        final(game).highlights.mirror_of(&old(game).highlights),
        final(game).queue.visible@ == mirrored_pieces(old(game).queue.visible@),
        final(game).hold.piece == mirrored_hold(old(game).hold.piece),
        *final(game) == (GameState {
            board: final(game).board,
            highlights: final(game).highlights,
            queue: super::game_state::QueueState {
                visible: final(game).queue.visible,
                ..old(game).queue
            },
            hold: super::game_state::HoldState { piece: final(game).hold.piece, ..old(game).hold },
            ..*old(game)
        }),
{
    mirror_board(&mut game.board);
    game.highlights.mirror();
    let n = game.queue.visible.len();
    let ghost start = game.queue.visible@;
    let ghost mid = *game;
    let mut i: usize = 0;
    while i < n
        invariant
            *game == (GameState {
                queue: super::game_state::QueueState { visible: game.queue.visible, ..mid.queue },
                ..mid
            }),
            n == game.queue.visible@.len(),
            n == start.len(),
            i <= n,
            forall|j: int| 0 <= j < i ==> game.queue.visible@[j] == spec_mirrored_piece(start[j]),
            forall|j: int| i <= j < n ==> game.queue.visible@[j] == start[j],
        decreases n - i,
    {
        let p = mirrored_piece(game.queue.visible[i]);
        game.queue.visible.set(i, p);
        i += 1;
    }
    assert(game.queue.visible@ =~= mirrored_pieces(start));
    if let Some(held) = game.hold.piece {
        game.hold.piece = Some(mirrored_piece(held));
    }
}

/// Mirroring the field and queue twice restores the board, the overlay,
/// the queue and the held piece.
pub proof fn law_mirror_field_and_queue_twice(a: GameState, b: GameState, c: GameState)
    requires
        a.wf(),
        b.wf(),
        board_mirror_of(b.board, a.board),
        b.highlights.mirror_of(&a.highlights),
        b.queue.visible@ == mirrored_pieces(a.queue.visible@),
        b.hold.piece == mirrored_hold(a.hold.piece),
        board_mirror_of(c.board, b.board),
        c.highlights.mirror_of(&b.highlights),
        c.queue.visible@ == mirrored_pieces(b.queue.visible@),
        c.hold.piece == mirrored_hold(b.hold.piece),
    ensures
        c.board.same_shape(&a.board),
        c.board.cells@ == a.board.cells@,
        c.highlights.cells@ == a.highlights.cells@,
        c.queue.visible@ == a.queue.visible@,
        c.hold.piece == a.hold.piece,
{
    lemma_board_mirror_twice(a.board, b.board, c.board);
    super::highlight::lemma_highlight_mirror_twice(a.highlights, b.highlights, c.highlights);
    assert forall|j: int| 0 <= j < a.queue.visible@.len() implies c.queue.visible@[j]
        == a.queue.visible@[j] by {
        lemma_mirrored_piece_involution(a.queue.visible@[j]);
    }
    assert(c.queue.visible@ =~= a.queue.visible@);
    if let Some(k) = a.hold.piece {
        lemma_mirrored_piece_involution(k);
    }
}

/// Row `y` of `new` is a garbage line laid over row `y` of `old`: gray in
/// every column but one, where the old cell stays.
pub open spec fn garbage_line_over(new: Board, old: Board, y: int) -> bool {
    exists|hole: int| 0 <= hole < old.width && #[trigger] garbage_line_with_hole(new, old, y, hole)
}

/// Row `y` of `new` is gray in every column but `hole`, where row `y` of
/// `old` shows through.
pub open spec fn garbage_line_with_hole(new: Board, old: Board, y: int, hole: int) -> bool {
    forall|x: int|
        0 <= x < old.width ==> #[trigger] new.at(x, y) == if x == hole {
            old.at(x, y)
        } else {
            Cell::Gray
        }
}

/// Row `y` of `new` equals row `y` of `old`.
pub open spec fn row_kept(new: Board, old: Board, y: int) -> bool {
    forall|x: int| 0 <= x < old.width ==> #[trigger] new.at(x, y) == old.at(x, y)
}

/// Row `y` of `new` is a garbage line over `old` when it lies at or below
/// row `from`, and unchanged above it.
pub open spec fn garbage_row_state(new: Board, old: Board, y: int, from: int) -> bool {
    if y >= from {
        garbage_line_over(new, old, y)
    } else {
        row_kept(new, old, y)
    }
}

/// The smaller of two sizes.
pub open spec fn size_min(a: int, b: int) -> int {
    if a <= b {
        a
    } else {
        b
    }
}

/// Lays `lines` garbage lines (as many as fit) over the bottom rows, each
/// with its hole in a column drawn from `rng`.
fn spawn_garbage_board(board: &mut Board, lines: usize, rng: &mut SmallRng)
    requires
        old(board).wf(),
        old(board).width > 0 || size_min(lines as int, old(board).total()) == 0,
    ensures
        final(board).wf(),
        final(board).same_shape(old(board)),
        forall|y: int|
            0 <= y < old(board).total() ==> #[trigger] garbage_row_state(
                *final(board),
                *old(board),
                y,
                old(board).total() - size_min(lines as int, old(board).total()),
            ),
{
    let w = board.width;
    let total_h = board.total_height();
    let count = if lines < total_h {
        lines
    } else {
        total_h
    };
    let mut line: usize = 0;
    while line < count
        invariant
            board.wf(),
            board.same_shape(old(board)),
            w == board.width,
            total_h == board.total(),
            count == size_min(lines as int, total_h as int),
            w > 0 || count == 0,
            line <= count,
            forall|y: int|
                0 <= y < total_h ==> #[trigger] garbage_row_state(
                    *board,
                    *old(board),
                    y,
                    total_h - line,
                ),
        decreases count - line,
    {
        let hole = rng_gen_range(rng, 0, w);
        let y = total_h - 1 - line;
        proof {
            assert(garbage_row_state(*board, *old(board), y as int, total_h - line));
        }
        let mut x: usize = 0;
        while x < w
            invariant
                board.wf(),
                board.same_shape(old(board)),
                w == board.width,
                total_h == board.total(),
                y < total_h,
                hole < w,
                x <= w,
                forall|py: int|
                    0 <= py < total_h && py != y ==> #[trigger] garbage_row_state(
                        *board,
                        *old(board),
                        py,
                        total_h - line,
                    ),
                forall|px: int|
                    0 <= px < w ==> #[trigger] board.at(px, y as int) == if px < x && px != hole {
                        Cell::Gray
                    } else {
                        old(board).at(px, y as int)
                    },
            decreases w - x,
        {
            if x != hole {
                let ghost before = *board;
                board.set(x, y, Cell::Gray);
                proof {
                    lemma_at_after_set(before, *board, x as int, y as int, Cell::Gray);
                    assert forall|py: int|
                        0 <= py < total_h && py != y implies #[trigger] garbage_row_state(
                        *board,
                        *old(board),
                        py,
                        total_h - line,
                    ) by {
                        assert(garbage_row_state(before, *old(board), py, total_h - line));
                        assert forall|px: int| 0 <= px < w implies #[trigger] board.at(px, py)
                            == before.at(px, py) by {}
                        if py >= total_h - line {
                            let h = choose|h: int|
                                0 <= h < old(board).width && #[trigger] garbage_line_with_hole(
                                    before,
                                    *old(board),
                                    py,
                                    h,
                                );
                            assert forall|px: int| 0 <= px < old(board).width implies #[trigger] board.at(
                                px,
                                py,
                            ) == if px == h {
                                old(board).at(px, py)
                            } else {
                                Cell::Gray
                            } by {
                                assert(before.at(px, py) == if px == h {
                                    old(board).at(px, py)
                                } else {
                                    Cell::Gray
                                });
                            }
                            assert(garbage_line_with_hole(*board, *old(board), py, h));
                        }
                    }
                }
            }
            x += 1;
        }
        proof {
            assert(garbage_line_over(*board, *old(board), y as int)) by {
                assert forall|px: int| 0 <= px < old(board).width implies #[trigger] board.at(
                    px,
                    y as int,
                ) == if px == hole {
                    old(board).at(px, y as int)
                } else {
                    Cell::Gray
                } by {}
                assert(garbage_line_with_hole(*board, *old(board), y as int, hole as int));
            }
            assert forall|py: int| 0 <= py < total_h implies #[trigger] garbage_row_state(
                *board,
                *old(board),
                py,
                total_h - (line + 1),
            ) by {
                if py != y {
                    assert(garbage_row_state(*board, *old(board), py, total_h - line));
                }
            }
        }
        line += 1;
    }
}

/// Cell `(dx, up)` of the bottom of a four-wide well, `dx` columns into the
/// well and `up` rows above the floor, is gray in opening pattern `p`.
pub open spec fn four_wide_pattern(p: int, dx: int, up: int) -> bool {
    ||| p == 0 && up == 0 && 0 <= dx <= 2
    ||| p == 1 && up == 0 && 1 <= dx <= 3
    ||| p == 2 && ((up == 0 && dx == 0) || (up == 1 && 0 <= dx <= 1))
    ||| p == 3 && ((up == 0 && dx == 3) || (up == 1 && 2 <= dx <= 3))
    ||| p == 4 && ((up == 0 && 0 <= dx <= 1) || (up == 1 && dx == 0))
    ||| p == 5 && ((up == 0 && 2 <= dx <= 3) || (up == 1 && dx == 3))
}

/// Whether square `(x, y)` of a four-wide setup with opening pattern `p`
/// is gray: everything outside the four centre columns, and the pattern's
/// cells at the bottom of the well.
pub open spec fn four_wide_gray(w: int, total: int, p: int, x: int, y: int) -> bool {
    let hc = w / 2 - 2;
    x < hc || x >= hc + 4 || four_wide_pattern(p, x - hc, total - 1 - y)
}

/// `new` is `old` with the four-wide setup of opening pattern `p` laid
/// over it.
pub open spec fn four_wide_laid(new: Board, old: Board, p: int) -> bool {
    forall|x: int, y: int|
        #![trigger new.at(x, y)]
        old.spec_in_bounds(x, y) ==> new.at(x, y) == if four_wide_gray(
            old.width as int,
            old.total(),
            p,
            x,
            y,
        ) {
            Cell::Gray
        } else {
            old.at(x, y)
        }
}

/// Whether opening pattern `p` makes the cell `dx` columns into the well
/// and `up` rows above its floor gray.
fn pattern_cell(p: usize, dx: usize, up: usize) -> (r: bool)
    ensures
        r == four_wide_pattern(p as int, dx as int, up as int),
{
    match p {
        0 => up == 0 && dx <= 2,
        1 => up == 0 && 1 <= dx && dx <= 3,
        2 => (up == 0 && dx == 0) || (up == 1 && dx <= 1),
        3 => (up == 0 && dx == 3) || (up == 1 && 2 <= dx && dx <= 3),
        4 => (up == 0 && dx <= 1) || (up == 1 && dx == 0),
        5 => (up == 0 && 2 <= dx && dx <= 3) || (up == 1 && dx == 3),
        _ => false,
    }
}

/// Walls the board in around a four-wide well in the centre columns and
/// puts one of six three-cell openings, drawn from `rng`, at its bottom.
fn spawn_four_wide(board: &mut Board, rng: &mut SmallRng)
    requires
        old(board).wf(),
        old(board).width >= 4,
        old(board).total() >= 2,
    ensures
        final(board).wf(),
        final(board).same_shape(old(board)),
        exists|p: int| 0 <= p < 6 && #[trigger] four_wide_laid(*final(board), *old(board), p),
{
    let w = board.width;
    let total_h = board.total_height();
    let hc = w / 2 - 2;
    let dy = total_h - 1;
    let mut y: usize = 0;
    while y < total_h
        invariant
            board.wf(),
            board.same_shape(old(board)),
            w == board.width,
            w >= 4,
            hc == w / 2 - 2,
            total_h == board.total(),
            y <= total_h,
            forall|px: int, py: int|
                #![trigger board.at(px, py)]
                old(board).spec_in_bounds(px, py) ==> board.at(px, py) == if py < y && (px < hc
                    || px >= hc + 4) {
                    Cell::Gray
                } else {
                    old(board).at(px, py)
                },
        decreases total_h - y,
    {
        let mut x: usize = 0;
        while x < w
            invariant
                board.wf(),
                board.same_shape(old(board)),
                w == board.width,
                w >= 4,
                hc == w / 2 - 2,
                total_h == board.total(),
                y < total_h,
                x <= w,
                forall|px: int, py: int|
                    #![trigger board.at(px, py)]
                    old(board).spec_in_bounds(px, py) ==> board.at(px, py) == if (py < y || (py
                        == y && px < x)) && (px < hc || px >= hc + 4) {
                        Cell::Gray
                    } else {
                        old(board).at(px, py)
                    },
            decreases w - x,
        {
            if x < hc || x >= hc + 4 {
                let ghost before = *board;
                board.set(x, y, Cell::Gray);
                proof {
                    lemma_at_after_set(before, *board, x as int, y as int, Cell::Gray);
                }
            }
            x += 1;
        }
        y += 1;
    }
    let pattern = rng_gen_range(rng, 0, 6);
    let mut up: usize = 0;
    while up < 2
        invariant
            board.wf(),
            board.same_shape(old(board)),
            w == board.width,
            w >= 4,
            hc == w / 2 - 2,
            total_h == board.total(),
            total_h >= 2,
            dy == total_h - 1,
            pattern < 6,
            up <= 2,
            forall|px: int, py: int|
                #![trigger board.at(px, py)]
                old(board).spec_in_bounds(px, py) ==> board.at(px, py) == if (px < hc || px >= hc
                    + 4) || (dy - py < up && hc <= px < hc + 4 && four_wide_pattern(
                    pattern as int,
                    px - hc,
                    dy - py,
                )) {
                    Cell::Gray
                } else {
                    old(board).at(px, py)
                },
        decreases 2 - up,
    {
        let mut dx: usize = 0;
        while dx < 4
            invariant
                board.wf(),
                board.same_shape(old(board)),
                w == board.width,
                w >= 4,
                hc == w / 2 - 2,
                total_h == board.total(),
                total_h >= 2,
                dy == total_h - 1,
                pattern < 6,
                up < 2,
                dx <= 4,
                forall|px: int, py: int|
                    #![trigger board.at(px, py)]
                    old(board).spec_in_bounds(px, py) ==> board.at(px, py) == if (px < hc || px
                        >= hc + 4) || ((dy - py < up || (dy - py == up && px - hc < dx)) && hc <= px
                        < hc + 4 && four_wide_pattern(pattern as int, px - hc, dy - py)) {
                        Cell::Gray
                    } else {
                        old(board).at(px, py)
                    },
            decreases 4 - dx,
        {
            if pattern_cell(pattern, dx, up) {
                let ghost before = *board;
                board.set(hc + dx, dy - up, Cell::Gray);
                proof {
                    lemma_at_after_set(
                        before,
                        *board,
                        (hc + dx) as int,
                        (dy - up) as int,
                        Cell::Gray,
                    );
                }
            }
            dx += 1;
        }
        up += 1;
    }
    proof {
        let p = pattern as int;
        assert forall|x: int, y: int|
            #![trigger board.at(x, y)]
            old(board).spec_in_bounds(x, y) implies board.at(x, y) == if four_wide_gray(
                w as int,
                total_h as int,
                p,
                x,
                y,
            ) {
                Cell::Gray
            } else {
                old(board).at(x, y)
            } by {}
        assert(four_wide_laid(*board, *old(board), p));
    }
}

/// The first `n` pieces of some ordering of the seven pieces.
pub open spec fn is_bag_prefix(bag: Seq<Tetromino>, n: int) -> bool {
    exists|s: Seq<Tetromino>|
        s.len() == 7 && s.to_multiset() == super::piece::all_pieces_seq().to_multiset()
            && #[trigger] s.take(n) == bag
}

/// Whether the piece list holds `kind`.
fn holds_piece(pieces: &Vec<Tetromino>, kind: Tetromino) -> (r: bool)
    ensures
        r == pieces@.contains(kind),
{
    let mut i: usize = 0;
    while i < pieces.len()
        invariant
            i <= pieces@.len(),
            forall|j: int| 0 <= j < i ==> pieces@[j] != kind,
        decreases pieces@.len() - i,
    {
        if pieces[i] == kind {
            return true;
        }
        i += 1;
    }
    false
}

/// `leftover` clamped to `1..=7`.
pub open spec fn pc_bag_size(leftover: int) -> int {
    if leftover < 1 {
        1
    } else if leftover > 7 {
        7
    } else {
        leftover
    }
}

/// Draws the opening pieces of a perfect-clear round: the first `leftover`
/// (clamped to one through seven) pieces of a shuffled bag. A four-piece
/// draw holding J, L and T together is thrown back and drawn again. The
/// generator's seed moves on.
fn generate_pc_bag(leftover: usize, generator: &mut super::bag::QueueGenerator) -> (bag: Vec<
    Tetromino,
>)
    ensures
        bag@.len() == pc_bag_size(leftover as int),
        is_bag_prefix(bag@, pc_bag_size(leftover as int)),
        final(generator).mode == old(generator).mode,
        final(generator).static_sequence == old(generator).static_sequence,
{
    let n: usize = if leftover < 1 {
        1
    } else if leftover > 7 {
        7
    } else {
        leftover
    };
    let mut rng = rng_from_seed(generator.seed as u64);
    let mut attempts: u64 = 0;
    loop
        invariant
            n == pc_bag_size(leftover as int),
            generator.mode == old(generator).mode,
            generator.static_sequence == old(generator).static_sequence,
        decreases u64::MAX - attempts,
    {
        let mut bag = super::piece::all_pieces();
        rng_shuffle_range(&mut rng, &mut bag, 0, 7);
        let ghost shuffled = bag@;
        bag.truncate(n);
        proof {
            assert(shuffled.subrange(0, 7) =~= shuffled);
            assert(super::piece::all_pieces_seq().subrange(0, 7) =~= super::piece::all_pieces_seq());
            assert(shuffled.take(n as int) == bag@);
        }
        if n == 4 && attempts < u64::MAX {
            let has_j = holds_piece(&bag, Tetromino::J);
            let has_l = holds_piece(&bag, Tetromino::L);
            let has_t = holds_piece(&bag, Tetromino::T);
            if has_j && has_l && has_t {
                generator.seed = rng_gen_u16(&mut rng);
                attempts += 1;
                continue;
            }
        }
        generator.seed = rng_gen_u16(&mut rng);
        return bag;
    }
}

/// Every square of row `y` is empty.
pub open spec fn row_empty(b: Board, y: int) -> bool {
    forall|x: int| 0 <= x < b.width ==> #[trigger] b.at(x, y) == Cell::Empty
}

/// Row `y` of a fresh cheese board: the bottom `lines` rows are garbage
/// with one empty square each, the rows above are empty.
pub open spec fn fresh_cheese_row(b: Board, lines: int, y: int) -> bool {
    if y >= b.total() - size_min(lines, b.total()) {
        exists|hole: int| 0 <= hole < b.width && #[trigger] garbage_row_at(b, y, hole)
    } else {
        row_empty(b, y)
    }
}

/// A fresh four-wide board with opening pattern `p`: gray where the setup
/// is gray, empty elsewhere.
pub open spec fn four_wide_fresh(b: Board, p: int) -> bool {
    forall|x: int, y: int|
        #![trigger b.at(x, y)]
        b.spec_in_bounds(x, y) ==> b.at(x, y) == if four_wide_gray(
            b.width as int,
            b.total(),
            p,
            x,
            y,
        ) {
            Cell::Gray
        } else {
            Cell::Empty
        }
}

/// The gravity a mode starts with: one row per second in master mode,
/// none otherwise.
pub open spec fn mode_gravity(mode: GameMode) -> GravityState {
    if mode == GameMode::Master {
        GravityState { gravity_hz: Some(1), ..GravityState::spec_default() }
    } else {
        GravityState::spec_default()
    }
}

/// `f` is `g` restarted in `mode`: see `reset_for_mode`.
pub open spec fn reset_as(g: GameState, f: GameState, mode: GameMode) -> bool {
    &&& f.wf()
    &&& f.board.same_shape(&g.board)
    &&& f.highlights.all_zero()
    &&& mode == GameMode::Cheese ==> forall|y: int|
        0 <= y < f.board.total() ==> #[trigger] fresh_cheese_row(
            f.board,
            4,
            y,
        )
    &&& mode == GameMode::FourWide ==> exists|p: int|
        0 <= p < 6 && #[trigger] four_wide_fresh(f.board, p)
    &&& mode != GameMode::Cheese && mode != GameMode::FourWide ==> f.board.all_empty()
    &&& mode == GameMode::PerfectClear ==> {
        &&& f.queue.visible@.len() == pc_bag_size(g.pc_leftover as int)
        &&& is_bag_prefix(f.queue.visible@, pc_bag_size(g.pc_leftover as int))
    }
    &&& mode != GameMode::PerfectClear ==> {
        &&& f.queue.visible@.len() == 0
        &&& f.queue.seed == g.queue.seed
    }
    &&& f.queue.mode == g.queue.mode
    &&& f.clear_flash.is_default()
    &&& f == (GameState {
        mode: mode,
        board: f.board,
        highlights: f.highlights,
        current: PieceState {
            kind: Tetromino::I,
            rotation: Rotation::Spawn,
            x: (g.board.width as int / 2 - 2) as i32,
            y: (g.board.total() - 2) as i32,
        },
        hold: HoldState {
            piece: None,
            swapped_this_turn: false,
            infinite_hold: g.hold.infinite_hold,
        },
        queue: f.queue,
        stats: Stats::spec_default(),
        spin: SpinState::spec_default(),
        gravity: mode_gravity(mode),
        lock_delay: LockDelayState::spec_default(),
        clear_flash: f.clear_flash,
        ..g
    })
}

/// Starts a new round of `mode`: the board and overlay are emptied, hold,
/// statistics, spin, lock delay, flash and gravity go back to their
/// defaults (the infinite-hold setting stays), an I piece stands at the
/// spawn position, and the queue is emptied, or in perfect-clear mode holds
/// the opening pieces. Cheese mode then lays four garbage lines, four-wide
/// mode its walled well.
pub fn reset_for_mode(game: &mut GameState, mode: GameMode)
    requires
        old(game).wf(),
        mode == GameMode::Cheese ==> old(game).board.width > 0 || old(game).board.total() == 0,
        mode == GameMode::FourWide ==> old(game).board.width >= 4 && old(game).board.total() >= 2,
    ensures
        reset_as(*old(game), *final(game), mode),
{
    game.mode = mode;
    game.board.clear_all();
    game.highlights.sync_to_board(&game.board);
    let default_hold = HoldState::default();
    game.hold = HoldState { infinite_hold: game.hold.infinite_hold, ..default_hold };
    game.stats = Stats::default();
    game.spin = SpinState::default();
    game.lock_delay = LockDelayState::default();
    game.clear_flash = ClearFlashState::default();
    game.gravity = match mode {
        GameMode::Master => {
            let default_gravity = GravityState::default();
            GravityState { gravity_hz: Some(1), ..default_gravity }
        },
        _ => GravityState::default(),
    };
    let width = game.board.width;
    game.current = PieceState {
        kind: Tetromino::I,
        rotation: Rotation::Spawn,
        x: (width as i32) / 2 - 2,
        y: game.board.total_height() as i32 - 2,
    };
    match mode {
        GameMode::PerfectClear => {
            let mut generator = QueueGenerator::new(game.queue.mode, game.queue.seed);
            let leftover = if game.pc_leftover < 1 {
                1
            } else if game.pc_leftover > 7 {
                7
            } else {
                game.pc_leftover
            };
            let pc_pieces = generate_pc_bag(leftover, &mut generator);
            game.queue.seed = generator.seed;
            game.queue.visible = pc_pieces;
        },
        _ => {
            game.queue.visible.clear();
        },
    }
    let ghost cleared = game.board;
    match mode {
        GameMode::Cheese => {
            let mut rng = rng_from_seed(game.queue.seed as u64);
            spawn_garbage_board(&mut game.board, 4, &mut rng);
            proof {
                assert forall|y: int| 0 <= y < game.board.total() implies #[trigger] fresh_cheese_row(
                    game.board,
                    4,
                    y,
                ) by {
                    assert(garbage_row_state(
                        game.board,
                        cleared,
                        y,
                        cleared.total() - size_min(4, cleared.total()),
                    ));
                    assert forall|x: int| 0 <= x < cleared.width implies #[trigger] cleared.at(x, y)
                        == Cell::Empty by {
                        lemma_grid_index_bounds(cleared.width as int, cleared.total(), x, y);
                    }
                    if y >= cleared.total() - size_min(4, cleared.total()) {
                        let hole = choose|hole: int|
                            0 <= hole < cleared.width && #[trigger] garbage_line_with_hole(
                                game.board,
                                cleared,
                                y,
                                hole,
                            );
                        assert(garbage_row_at(game.board, y, hole));
                    }
                }
            }
        },
        GameMode::FourWide => {
            let mut rng = rng_from_seed(game.queue.seed as u64);
            spawn_four_wide(&mut game.board, &mut rng);
            proof {
                let p = choose|p: int| 0 <= p < 6 && #[trigger] four_wide_laid(game.board, cleared, p);
                assert forall|x: int, y: int|
                    #![trigger game.board.at(x, y)]
                    game.board.spec_in_bounds(x, y) implies game.board.at(x, y) == if four_wide_gray(
                        game.board.width as int,
                        game.board.total(),
                        p,
                        x,
                        y,
                    ) {
                        Cell::Gray
                    } else {
                        Cell::Empty
                    } by {
                    lemma_grid_index_bounds(cleared.width as int, cleared.total(), x, y);
                }
                assert(four_wide_fresh(game.board, p));
            }
        },
        _ => {},
    }
    game.hold.swapped_this_turn = false;
}

} // verus!
