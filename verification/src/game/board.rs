use vstd::prelude::*;

use super::grid::{
    grid_index, lemma_row_bounds, lemma_grid_index_bounds, lemma_grid_index_decompose, lemma_grid_index_unique,
    lemma_next_row,
};
use super::piece::{
    Cell, PieceState, Tetromino, cell_from_piece, piece_shape, shape_at, spec_cell_from_piece,
};

verus! {

/// The playfield: `hidden_rows` rows above `visible_height` visible rows,
/// each `width` cells wide, stored row-major from the top.
#[derive(Debug, Clone, PartialEq, Eq)]
pub struct Board {
    pub width: usize,
    pub visible_height: usize,
    pub hidden_rows: usize,
    pub cells: Vec<Cell>,
}

/// Whether the piece covers board square `(x, y)`.
pub open spec fn covers(piece: PieceState, x: int, y: int) -> bool {
    let dx = x - piece.x;
    let dy = y - piece.y;
    0 <= dx < 4 && 0 <= dy < 4 && shape_at(piece.kind, piece.rotation, dx, dy)
}

/// A piece position whose shape offsets can be added without overflow.
pub open spec fn piece_in_range(piece: PieceState) -> bool {
    piece.x <= i32::MAX - 3 && piece.y <= i32::MAX - 3
}

impl Board {
    /// Rows in total, hidden and visible.
    pub open spec fn total(&self) -> int {
        self.visible_height + self.hidden_rows
    }

    /// The storage holds exactly one cell per square, and every square has
    /// `i32` coordinates.
    pub open spec fn wf(&self) -> bool {
        &&& self.width <= i32::MAX
        &&& self.visible_height + self.hidden_rows <= i32::MAX
        &&& self.width * self.total() <= usize::MAX
        &&& self.cells@.len() == self.width * self.total()
    }

    /// The cell at column `x`, row `y`.
    pub open spec fn at(&self, x: int, y: int) -> Cell {
        self.cells@[grid_index(self.width as int, x, y)]
    }

    pub open spec fn spec_in_bounds(&self, x: int, y: int) -> bool {
        0 <= x < self.width && 0 <= y < self.total()
    }

    /// Off the board, or holding something other than an empty square.
    pub open spec fn blocked(&self, x: int, y: int) -> bool {
        !self.spec_in_bounds(x, y) || self.at(x, y) != Cell::Empty
    }

    /// Whether row `y` has no empty square.
    pub open spec fn row_full(&self, y: int) -> bool {
        forall|x: int| 0 <= x < self.width ==> #[trigger] self.at(x, y) != Cell::Empty
    }

    /// Whether every square of the board is empty.
    pub open spec fn all_empty(&self) -> bool {
        forall|i: int| 0 <= i < self.cells@.len() ==> #[trigger] self.cells@[i] == Cell::Empty
    }

    /// The same board dimensions as `other`.
    pub open spec fn same_shape(&self, other: &Board) -> bool {
        &&& self.width == other.width
        &&& self.visible_height == other.visible_height
        &&& self.hidden_rows == other.hidden_rows
    }

    /// An empty board of the given dimensions.
    pub fn new(width: usize, visible_height: usize, hidden_rows: usize) -> (b: Self)
        requires
            width <= i32::MAX,
            visible_height + hidden_rows <= i32::MAX,
            width * (visible_height + hidden_rows) <= usize::MAX,
        ensures
            b.wf(),
            b.width == width,
            b.visible_height == visible_height,
            b.hidden_rows == hidden_rows,
            b.all_empty(),
    {
        let total = visible_height + hidden_rows;
        let n = width * total;
        let mut cells: Vec<Cell> = Vec::new();
        let mut i: usize = 0;
        while i < n
            invariant
                i <= n,
                cells@.len() == i,
                forall|j: int| 0 <= j < i ==> cells@[j] == Cell::Empty,
            decreases n - i,
        {
            cells.push(Cell::Empty);
            i += 1;
        }
        Board { width, visible_height, hidden_rows, cells }
    }

    /// Rows in total, hidden and visible.
    pub fn total_height(&self) -> (t: usize)
        requires
            self.wf(),
        ensures
            t == self.total(),
    {
        self.visible_height + self.hidden_rows
    }

    /// Column where a newly spawned piece's shape grid starts.
    pub fn spawn_x(&self) -> (x: i32)
        requires
            self.wf(),
        ensures
            x == self.width as int / 2 - 2,
    {
        (self.width as i32) / 2 - 2
    }

    /// Row where a newly spawned piece's shape grid starts.
    pub fn spawn_y(&self) -> (y: i32)
        requires
            self.wf(),
        ensures
            y == self.hidden_rows - 2,
    {
        (self.hidden_rows as i32) - 2
    }

    /// Whether `(x, y)` is a square of the board.
    pub fn in_bounds(&self, x: i32, y: i32) -> (r: bool)
        requires
            self.wf(),
        ensures
            r == self.spec_in_bounds(x as int, y as int),
    {
        x >= 0 && (x as usize) < self.width && y >= 0 && (y as usize) < self.total_height()
    }

    /// Whether `(x, y)` is off the board or not empty.
    pub fn is_occupied_or_oob(&self, x: i32, y: i32) -> (r: bool)
        requires
            self.wf(),
        ensures
            r == self.blocked(x as int, y as int),
    {
        if !self.in_bounds(x, y) {
            return true;
        }
        proof {
            lemma_grid_index_bounds(self.width as int, self.total(), x as int, y as int);
        }
        self.cells[y as usize * self.width + x as usize] != Cell::Empty
    }

    /// The cell at column `x`, row `y`.
    pub fn get(&self, x: usize, y: usize) -> (c: Cell)
        requires
            self.wf(),
            x < self.width,
            y < self.total(),
        ensures
            c == self.at(x as int, y as int),
    {
        proof {
            lemma_grid_index_bounds(self.width as int, self.total(), x as int, y as int);
        }
        self.cells[y * self.width + x]
    }

    /// Writes one cell.
    pub fn set(&mut self, x: usize, y: usize, cell: Cell)
        requires
            old(self).wf(),
            x < old(self).width,
            y < old(self).total(),
        ensures
            final(self).wf(),
            final(self).same_shape(old(self)),
            final(self).cells@ == old(self).cells@.update(
                grid_index(old(self).width as int, x as int, y as int),
                cell,
            ),
    {
        proof {
            lemma_grid_index_bounds(self.width as int, self.total(), x as int, y as int);
        }
        let i = y * self.width + x;
        self.cells.set(i, cell);
    }

    /// Empties every square.
    pub fn clear_all(&mut self)
        requires
            old(self).wf(),
        ensures
            final(self).wf(),
            final(self).same_shape(old(self)),
            final(self).all_empty(),
    {
        let n = self.cells.len();
        let mut i: usize = 0;
        while i < n
            invariant
                self.wf(),
                self.same_shape(old(self)),
                n == self.cells@.len(),
                i <= n,
                forall|j: int| 0 <= j < i ==> self.cells@[j] == Cell::Empty,
            decreases n - i,
        {
            self.cells.set(i, Cell::Empty);
            i += 1;
        }
    }

    /// Empties the board, then copies `row_count` rows (at most the
    /// visible height) of `visible_rows` into the bottom visible rows.
    pub fn replace_visible_rows_bottom_aligned(&mut self, visible_rows: &Vec<Cell>, row_count: usize)
        requires
            old(self).wf(),
            visible_rows@.len() == old(self).width * spec_min(
                row_count as int,
                old(self).visible_height as int,
            ),
        ensures
            final(self).wf(),
            final(self).same_shape(old(self)),
            final(self).cells@ == bottom_aligned(
                old(self).cells@.len(),
                old(self).width as int,
                old(self).total(),
                visible_rows@,
                spec_min(row_count as int, old(self).visible_height as int),
                Cell::Empty,
            ),
    {
        let width = self.width;
        let visible_height = self.visible_height;
        let hidden_rows = self.hidden_rows;
        replace_visible_rows_bottom_aligned(
            &mut self.cells,
            width,
            visible_height,
            hidden_rows,
            visible_rows,
            row_count,
            Cell::Empty,
        );
    }

    /// Whether row `y` has no empty square.
    pub fn is_line_full(&self, y: usize) -> (r: bool)
        requires
            self.wf(),
            y < self.total(),
        ensures
            r == self.row_full(y as int),
    {
        proof {
            lemma_row_bounds(self.width as int, self.total(), y as int);
        }
        let start = y * self.width;
        let mut x: usize = 0;
        while x < self.width
            invariant
                self.wf(),
                y < self.total(),
                start == y * self.width,
                x <= self.width,
                forall|k: int| 0 <= k < x ==> #[trigger] self.at(k, y as int) != Cell::Empty,
            decreases self.width - x,
        {
            proof {
                lemma_grid_index_bounds(self.width as int, self.total(), x as int, y as int);
            }
            if self.cells[start + x] == Cell::Empty {
                assert(self.at(x as int, y as int) == Cell::Empty);
                return false;
            }
            x += 1;
        }
        true
    }

    /// Removes row `y`: every row above it moves down one, and an empty row
    /// appears at the top.
    pub fn clear_line(&mut self, y: usize)
        requires
            old(self).wf(),
            y < old(self).total(),
        ensures
            final(self).wf(),
            final(self).same_shape(old(self)),
            final(self).cells@ == shifted_down(
                old(self).cells@,
                old(self).width as int,
                y as int,
                Cell::Empty,
            ),
    {
        proof {
            lemma_row_bounds(self.width as int, self.total(), y as int);
        }
        shift_cells_down(&mut self.cells, self.width, y, Cell::Empty);
    }

    /// Moves every row up by one; the top row is lost and the bottom row
    /// becomes empty.
    pub fn push_line(&mut self)
        requires
            old(self).wf(),
            old(self).total() >= 1,
        ensures
            final(self).wf(),
            final(self).same_shape(old(self)),
            final(self).cells@ == pushed_up(old(self).cells@, old(self).width as int, Cell::Empty),
    {
        let n = self.cells.len();
        let w = self.width;
        proof {
            lemma_row_bounds(w as int, self.total(), self.total() - 1);
        }
        let keep = n - w;
        let mut i: usize = 0;
        while i < keep
            invariant
                self.wf(),
                self.same_shape(old(self)),
                n == self.cells@.len(),
                w == self.width,
                keep == n - w,
                w <= n,
                i <= keep,
                forall|j: int| 0 <= j < i ==> self.cells@[j] == old(self).cells@[j + w],
                forall|j: int| i <= j < n ==> self.cells@[j] == old(self).cells@[j],
            decreases keep - i,
        {
            let v = self.cells[i + w];
            self.cells.set(i, v);
            i += 1;
        }
        while i < n
            invariant
                self.wf(),
                self.same_shape(old(self)),
                n == self.cells@.len(),
                w == self.width,
                keep == n - w,
                keep <= i <= n,
                forall|j: int| 0 <= j < keep ==> self.cells@[j] == old(self).cells@[j + w],
                forall|j: int| keep <= j < i ==> self.cells@[j] == Cell::Empty,
            decreases n - i,
        {
            self.cells.set(i, Cell::Empty);
            i += 1;
        }
        proof {
            assert(self.cells@ =~= pushed_up(old(self).cells@, w as int, Cell::Empty));
        }
    }

    /// Writes the cell of `piece_kind` into every on-board square the
    /// piece's shape covers; squares off the board are skipped.
    pub fn freeze_piece(&mut self, piece: PieceState, piece_kind: Tetromino)
        requires
            old(self).wf(),
            piece_in_range(piece),
        ensures
            final(self).wf(),
            final(self).same_shape(old(self)),
            forall|x: int, y: int|
                #![trigger final(self).at(x, y)]
                old(self).spec_in_bounds(x, y) ==> final(self).at(x, y) == (if covers(piece, x, y) {
                    spec_cell_from_piece(piece_kind)
                } else {
                    old(self).at(x, y)
                }),
    {
        let shape = piece_shape(piece.kind, piece.rotation);
        let cell = cell_from_piece(piece_kind);
        let mut x: i32 = 0;
        while x < 4
            invariant
                0 <= x <= 4,
                self.wf(),
                self.same_shape(old(self)),
                piece_in_range(piece),
                cell == spec_cell_from_piece(piece_kind),
                forall|a: int, b: int|
                    0 <= a < 4 && 0 <= b < 4 ==> #[trigger] shape@[a]@[b] == shape_at(
                        piece.kind,
                        piece.rotation,
                        a,
                        b,
                    ),
                forall|px: int, py: int|
                    #![trigger self.at(px, py)]
                    old(self).spec_in_bounds(px, py) ==> self.at(px, py) == (if covers(piece, px, py)
                        && px - piece.x < x {
                        cell
                    } else {
                        old(self).at(px, py)
                    }),
            decreases 4 - x,
        {
            let mut y: i32 = 0;
            while y < 4
                invariant
                    0 <= x < 4,
                    0 <= y <= 4,
                    self.wf(),
                    self.same_shape(old(self)),
                    piece_in_range(piece),
                    cell == spec_cell_from_piece(piece_kind),
                    forall|a: int, b: int|
                        0 <= a < 4 && 0 <= b < 4 ==> #[trigger] shape@[a]@[b] == shape_at(
                            piece.kind,
                            piece.rotation,
                            a,
                            b,
                        ),
                    forall|px: int, py: int|
                        #![trigger self.at(px, py)]
                        old(self).spec_in_bounds(px, py) ==> self.at(px, py) == (if covers(
                            piece,
                            px,
                            py,
                        ) && (px - piece.x < x || (px - piece.x == x && py - piece.y < y)) {
                            cell
                        } else {
                            old(self).at(px, py)
                        }),
                decreases 4 - y,
            {
                if shape[x as usize][y as usize] {
                    let bx = piece.x + x;
                    let by = piece.y + y;
                    if self.in_bounds(bx, by) {
                        let ghost before = *self;
                        self.set(bx as usize, by as usize, cell);
                        proof {
                            assert forall|px: int, py: int|
                                #![trigger self.at(px, py)]
                                old(self).spec_in_bounds(px, py) implies self.at(px, py) == (
                                if covers(piece, px, py) && (px - piece.x < x || (px - piece.x == x
                                    && py - piece.y < y + 1)) {
                                    cell
                                } else {
                                    old(self).at(px, py)
                                }) by {
                                lemma_grid_index_bounds(
                                    self.width as int,
                                    self.total(),
                                    bx as int,
                                    by as int,
                                );
                                lemma_grid_index_bounds(self.width as int, self.total(), px, py);
                                if px != bx || py != by {
                                    if grid_index(self.width as int, px, py) == grid_index(
                                        self.width as int,
                                        bx as int,
                                        by as int,
                                    ) {
                                        lemma_grid_index_unique(
                                            self.width as int,
                                            px,
                                            py,
                                            bx as int,
                                            by as int,
                                        );
                                    }
                                    assert(self.at(px, py) == before.at(px, py));
                                }
                            }
                        }
                    }
                }
                y += 1;
            }
            x += 1;
        }
    }
}

/// The smaller of two integers.
pub open spec fn spec_min(a: int, b: int) -> int {
    if a <= b {
        a
    } else {
        b
    }
}

/// Storage of `len` cells, `width` per row, holding `rows` rows of
/// `visible_rows` in the bottom rows of the first `height` rows and `empty`
/// everywhere else.
pub open spec fn bottom_aligned<T>(
    len: nat,
    width: int,
    height: int,
    visible_rows: Seq<T>,
    rows: int,
    empty: T,
) -> Seq<T> {
    let start = (height - rows) * width;
    Seq::new(
        len,
        |i: int|
            if start <= i < start + rows * width {
                visible_rows[i - start]
            } else {
                empty
            },
    )
}

/// Row `y` removed: rows `0..y` each move down one row, row 0 becomes
/// `empty`, rows below `y` are kept.
pub open spec fn shifted_down<T>(cells: Seq<T>, width: int, y: int, empty: T) -> Seq<T> {
    Seq::new(
        cells.len(),
        |i: int|
            if i < width {
                empty
            } else if i < (y + 1) * width {
                cells[i - width]
            } else {
                cells[i]
            },
    )
}

/// Every row moved up one; the last row becomes `empty`.
pub open spec fn pushed_up<T>(cells: Seq<T>, width: int, empty: T) -> Seq<T> {
    Seq::new(
        cells.len(),
        |i: int|
            if i < cells.len() - width {
                cells[i + width]
            } else {
                empty
            },
    )
}

/// Shifts the rows `0..=y` of a row-major grid down by one row, filling the
/// top row with `empty`.
pub fn shift_cells_down<T: Copy>(cells: &mut Vec<T>, width: usize, y: usize, empty: T)
    requires
        (y + 1) * width <= old(cells)@.len(),
    ensures
        final(cells)@ == shifted_down(old(cells)@, width as int, y as int, empty),
{
    proof {
        lemma_next_row(width as int, y as int);
        assert(0 <= y * width <= (y + 1) * width) by (nonlinear_arith);
        assert(width <= (y + 1) * width) by (nonlinear_arith);
    }
    let n = cells.len();
    assert(y * width + width <= n);
    let end = y * width + width;
    let mut i: usize = end;
    while i > width
        invariant
            cells@.len() == old(cells)@.len(),
            end == (y + 1) * width,
            end <= cells@.len(),
            width <= end,
            width <= i <= end,
            forall|j: int| i <= j < end ==> cells@[j] == old(cells)@[j - width],
            forall|j: int| 0 <= j < i ==> cells@[j] == old(cells)@[j],
            forall|j: int| end <= j < cells@.len() ==> cells@[j] == old(cells)@[j],
        decreases i,
    {
        i -= 1;
        let v = cells[i - width];
        cells.set(i, v);
    }
    let mut x: usize = 0;
    while x < width && x < cells.len()
        invariant
            cells@.len() == old(cells)@.len(),
            end == (y + 1) * width,
            end <= cells@.len(),
            width <= end,
            x <= width,
            forall|j: int| 0 <= j < x ==> cells@[j] == empty,
            forall|j: int| x <= j < width && j < end ==> cells@[j] == old(cells)@[j],
            forall|j: int| width <= j < end ==> cells@[j] == old(cells)@[j - width],
            forall|j: int| end <= j < cells@.len() ==> cells@[j] == old(cells)@[j],
        decreases width - x,
    {
        cells.set(x, empty);
        x += 1;
    }
    proof {
        assert(cells@ =~= shifted_down(old(cells)@, width as int, y as int, empty));
    }
}

/// Fills the grid with `empty`, then copies `visible_rows` (`row_count` rows,
/// at most `visible_height`) into the bottom visible rows.
pub fn replace_visible_rows_bottom_aligned<T: Copy>(
    cells: &mut Vec<T>,
    width: usize,
    visible_height: usize,
    hidden_rows: usize,
    visible_rows: &Vec<T>,
    row_count: usize,
    empty: T,
)
    requires
        visible_height + hidden_rows <= usize::MAX,
        width * (visible_height + hidden_rows) <= old(cells)@.len(),
        visible_rows@.len() == width * spec_min(row_count as int, visible_height as int),
    ensures
        final(cells)@ == bottom_aligned(
            old(cells)@.len(),
            width as int,
            visible_height + hidden_rows,
            visible_rows@,
            spec_min(row_count as int, visible_height as int),
            empty,
        ),
{
    let clamped_rows = if row_count < visible_height {
        row_count
    } else {
        visible_height
    };
    let n = cells.len();
    let mut i: usize = 0;
    while i < n
        invariant
            n == cells@.len(),
            i <= n,
            forall|j: int| 0 <= j < i ==> cells@[j] == empty,
        decreases n - i,
    {
        cells.set(i, empty);
        i += 1;
    }
    let start_row = hidden_rows + (visible_height - clamped_rows);
    proof {
        assert((start_row + clamped_rows) * width == width * (visible_height + hidden_rows))
            by (nonlinear_arith)
            requires
                start_row + clamped_rows == visible_height + hidden_rows,
        ;
        assert(start_row * width + clamped_rows * width == (start_row + clamped_rows) * width)
            by (nonlinear_arith);
        assert(clamped_rows * width == width * clamped_rows) by (nonlinear_arith);
    }
    let start = start_row * width;
    let count = clamped_rows * width;
    let mut k: usize = 0;
    while k < count
        invariant
            n == cells@.len(),
            start + count <= n,
            count == visible_rows@.len(),
            k <= count,
            forall|j: int| 0 <= j < start ==> cells@[j] == empty,
            forall|j: int| start <= j < start + k ==> cells@[j] == visible_rows@[j - start],
            forall|j: int| start + k <= j < n ==> cells@[j] == empty,
        decreases count - k,
    {
        let v = visible_rows[k];
        cells.set(start + k, v);
        k += 1;
    }
    proof {
        assert(start == ((visible_height + hidden_rows) - clamped_rows) * width);
        assert(cells@ =~= bottom_aligned(
            n as nat,
            width as int,
            visible_height + hidden_rows,
            visible_rows@,
            spec_min(row_count as int, visible_height as int),
            empty,
        ));
    }
}

/// After one cell is written, that square holds the new cell and every
/// other square is unchanged.
pub proof fn lemma_at_after_set(before: Board, after: Board, x: int, y: int, c: Cell)
    requires
        before.wf(),
        before.spec_in_bounds(x, y),
        after.width == before.width,
        after.cells@ == before.cells@.update(grid_index(before.width as int, x, y), c),
    ensures
        forall|px: int, py: int|
            #![trigger after.at(px, py)]
            before.spec_in_bounds(px, py) ==> after.at(px, py) == if px == x && py == y {
                c
            } else {
                before.at(px, py)
            },
{
    assert forall|px: int, py: int|
        #![trigger after.at(px, py)]
        before.spec_in_bounds(px, py) implies after.at(px, py) == if px == x && py == y {
            c
        } else {
            before.at(px, py)
        } by {
        let w = before.width as int;
        lemma_grid_index_bounds(w, before.total(), px, py);
        lemma_grid_index_bounds(w, before.total(), x, y);
        if grid_index(w, px, py) == grid_index(w, x, y) {
            lemma_grid_index_unique(w, px, py, x, y);
        }
    }
}

} // verus!
