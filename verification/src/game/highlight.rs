use vstd::prelude::*;

use super::board::{
    Board, lemma_at_after_set, bottom_aligned, replace_visible_rows_bottom_aligned, shift_cells_down, shifted_down,
    spec_min,
};
use std::collections::VecDeque;

use super::grid::{
    grid_index, lemma_grid_index_bounds, lemma_grid_index_decompose, lemma_grid_index_unique,
    lemma_row_bounds,
};
use super::piece::{
    Cell, Rotation, Tetromino, all_pieces, all_pieces_seq, cell_from_piece, piece_shape, shape_at,
    spec_cell_from_piece,
};
use super::regions::{
    adjacent, gray_at, gray_linked, gray_path, lemma_closed_set_holds_path, lemma_linked_gray,
    lemma_linked_more_gray, lemma_linked_self, lemma_linked_step, lemma_linked_symmetric,
    lemma_linked_transitive, lemma_mark_one, lemma_marks_reach_back, lemma_region_unmarked, listed,
    lists_region, marks_closed, point, square_index, unmarked,
};

verus! {

/// A per-square overlay of highlight strengths, laid out like the board.
#[derive(Debug, Clone, PartialEq, Eq)]
pub struct HighlightBoard {
    pub width: usize,
    pub total_height: usize,
    pub cells: Vec<u8>,
}

impl HighlightBoard {
    /// The storage holds exactly one value per square.
    pub open spec fn wf(&self) -> bool {
        &&& self.width * self.total_height <= usize::MAX
        &&& self.cells@.len() == self.width * self.total_height
    }

    /// The value at column `x`, row `y`.
    pub open spec fn at(&self, x: int, y: int) -> u8 {
        self.cells@[grid_index(self.width as int, x, y)]
    }

    /// Every value is zero.
    pub open spec fn all_zero(&self) -> bool {
        forall|i: int| 0 <= i < self.cells@.len() ==> #[trigger] self.cells@[i] == 0
    }

    /// The cells of `self` are those of `other` reflected left to right.
    pub open spec fn mirror_of(&self, other: &HighlightBoard) -> bool {
        &&& self.width == other.width
        &&& self.total_height == other.total_height
        &&& self.cells@.len() == other.cells@.len()
        &&& forall|x: int, y: int|
            0 <= x < self.width && 0 <= y < self.total_height ==> #[trigger] self.at(x, y)
                == other.at(self.width - 1 - x, y)
    }

    /// An all-zero overlay of the given size.
    pub fn new(width: usize, total_height: usize) -> (h: Self)
        requires
            width * total_height <= usize::MAX,
        ensures
            h.wf(),
            h.width == width,
            h.total_height == total_height,
            h.all_zero(),
    {
        let n = width * total_height;
        let mut cells: Vec<u8> = Vec::new();
        let mut i: usize = 0;
        while i < n
            invariant
                i <= n,
                cells@.len() == i,
                forall|j: int| 0 <= j < i ==> cells@[j] == 0,
            decreases n - i,
        {
            cells.push(0u8);
            i += 1;
        }
        Self { width, total_height, cells }
    }

    /// Sets every value to zero.
    pub fn reset(&mut self)
        ensures
            final(self).width == old(self).width,
            final(self).total_height == old(self).total_height,
            final(self).cells@.len() == old(self).cells@.len(),
            final(self).all_zero(),
    {
        self.clear_all();
    }

    /// The value at column `x`, row `y`.
    pub fn get(&self, x: usize, y: usize) -> (v: u8)
        requires
            self.wf(),
            x < self.width,
            y < self.total_height,
        ensures
            v == self.at(x as int, y as int),
    {
        proof {
            lemma_grid_index_bounds(self.width as int, self.total_height as int, x as int, y as int);
        }
        self.cells[y * self.width + x]
    }

    /// Writes one value.
    pub fn set(&mut self, x: usize, y: usize, value: u8)
        requires
            old(self).wf(),
            x < old(self).width,
            y < old(self).total_height,
        ensures
            final(self).wf(),
            final(self).width == old(self).width,
            final(self).total_height == old(self).total_height,
            final(self).cells@ == old(self).cells@.update(
                grid_index(old(self).width as int, x as int, y as int),
                value,
            ),
    {
        proof {
            lemma_grid_index_bounds(self.width as int, self.total_height as int, x as int, y as int);
        }
        let i = y * self.width + x;
        self.cells.set(i, value);
    }

    /// Sets one value to zero.
    pub fn clear_cell(&mut self, x: usize, y: usize)
        requires
            old(self).wf(),
            x < old(self).width,
            y < old(self).total_height,
        ensures
            final(self).wf(),
            final(self).width == old(self).width,
            final(self).total_height == old(self).total_height,
            final(self).cells@ == old(self).cells@.update(
                grid_index(old(self).width as int, x as int, y as int),
                0,
            ),
    {
        self.set(x, y, 0);
    }

    /// Sets every value to zero.
    pub fn clear_all(&mut self)
        ensures
            final(self).width == old(self).width,
            final(self).total_height == old(self).total_height,
            final(self).cells@.len() == old(self).cells@.len(),
            final(self).all_zero(),
    {
        let n = self.cells.len();
        let mut i: usize = 0;
        while i < n
            invariant
                self.width == old(self).width,
                self.total_height == old(self).total_height,
                n == self.cells@.len(),
                n == old(self).cells@.len(),
                i <= n,
                forall|j: int| 0 <= j < i ==> self.cells@[j] == 0,
            decreases n - i,
        {
            self.cells.set(i, 0);
            i += 1;
        }
    }

    /// Resizes to the board's dimensions if they differ, and clears.
    pub fn sync_to_board(&mut self, board: &Board)
        requires
            board.wf(),
        ensures
            final(self).wf(),
            final(self).width == board.width,
            final(self).total_height == board.total(),
            final(self).all_zero(),
    {
        let width = board.width;
        let total_height = board.total_height();
        if self.width != width || self.total_height != total_height || self.cells.len() != width
            * total_height {
            *self = Self::new(width, total_height);
        } else {
            self.reset();
        }
    }

    /// Clears, then copies `row_count` rows (at most the height) of
    /// `visible_rows` into the bottom rows.
    pub fn replace_visible_rows_bottom_aligned(&mut self, visible_rows: &Vec<u8>, row_count: usize)
        requires
            old(self).wf(),
            visible_rows@.len() == old(self).width * spec_min(
                row_count as int,
                old(self).total_height as int,
            ),
        ensures
            final(self).wf(),
            final(self).width == old(self).width,
            final(self).total_height == old(self).total_height,
            final(self).cells@ == bottom_aligned(
                old(self).cells@.len(),
                old(self).width as int,
                old(self).total_height as int,
                visible_rows@,
                spec_min(row_count as int, old(self).total_height as int),
                0u8,
            ),
    {
        let width = self.width;
        let total_height = self.total_height;
        replace_visible_rows_bottom_aligned(
            &mut self.cells,
            width,
            total_height,
            0,
            visible_rows,
            row_count,
            0u8,
        );
    }

    /// Removes row `y`: rows above it move down, a zero row appears on top.
    pub fn clear_line(&mut self, y: usize)
        requires
            old(self).wf(),
            y < old(self).total_height,
        ensures
            final(self).wf(),
            final(self).width == old(self).width,
            final(self).total_height == old(self).total_height,
            final(self).cells@ == shifted_down(old(self).cells@, old(self).width as int, y as int, 0u8),
    {
        proof {
            lemma_row_bounds(self.width as int, self.total_height as int, y as int);
        }
        shift_cells_down(&mut self.cells, self.width, y, 0u8);
    }

    /// Reflects the overlay left to right.
    pub fn mirror(&mut self)
        requires
            old(self).wf(),
        ensures
            final(self).wf(),
            final(self).mirror_of(old(self)),
    {
        let w = self.width;
        let h = self.total_height;
        let mut new_cells: Vec<u8> = Vec::new();
        let mut y: usize = 0;
        let mut row_start: usize = 0;
        while y < h
            invariant
                self.wf(),
                self.width == w,
                self.total_height == h,
                self.cells == old(self).cells,
                y <= h,
                row_start == y * w,
                new_cells@.len() == row_start,
                forall|a: int, b: int|
                    0 <= a < w && 0 <= b < y ==> #[trigger] new_cells@[grid_index(w as int, a, b)]
                        == self.at(w - 1 - a, b),
            decreases h - y,
        {
            proof {
                lemma_row_bounds(w as int, h as int, y as int);
            }
            let mut x: usize = 0;
            while x < w
                invariant
                    self.wf(),
                    self.width == w,
                    self.total_height == h,
                    self.cells == old(self).cells,
                    y < h,
                    x <= w,
                    row_start == y * w,
                    row_start + w <= w * h,
                    new_cells@.len() == row_start + x,
                    forall|a: int, b: int|
                        0 <= a < w && 0 <= b < y ==> #[trigger] new_cells@[grid_index(w as int, a, b)]
                            == self.at(w - 1 - a, b),
                    forall|a: int| 0 <= a < x ==> #[trigger] new_cells@[row_start + a] == self.at(
                        w - 1 - a,
                        y as int,
                    ),
                decreases w - x,
            {
                let v = self.cells[row_start + (w - 1 - x)];
                let ghost prev = new_cells@;
                new_cells.push(v);
                proof {
                    assert forall|a: int, b: int|
                        0 <= a < w && 0 <= b < y implies #[trigger] new_cells@[grid_index(
                        w as int,
                        a,
                        b,
                    )] == self.at(w - 1 - a, b) by {
                        lemma_grid_index_bounds(w as int, y as int, a, b);
                        assert(w * y == y * w) by (nonlinear_arith);
                        assert(new_cells@[grid_index(w as int, a, b)] == prev[grid_index(
                            w as int,
                            a,
                            b,
                        )]);
                    }
                    assert(self.at(w - 1 - x, y as int) == self.cells@[row_start + (w - 1 - x)]);
                }
                x += 1;
            }
            proof {
                assert forall|a: int, b: int|
                    0 <= a < w && 0 <= b < y + 1 implies #[trigger] new_cells@[grid_index(
                    w as int,
                    a,
                    b,
                )] == self.at(w - 1 - a, b) by {
                    if b == y {
                        assert(grid_index(w as int, a, b) == row_start + a);
                    } else {
                        lemma_grid_index_bounds(w as int, y as int, a, b);
                    }
                }
            }
            y += 1;
            row_start = row_start + w;
        }
        proof {
            assert(h * w == w * h) by (nonlinear_arith);
        }
        let ghost before = *self;
        self.cells = new_cells;
        proof {
            assert forall|x: int, y: int|
                0 <= x < self.width && 0 <= y < self.total_height implies #[trigger] self.at(x, y)
                == old(self).at(self.width - 1 - x, y) by {
                assert(self.at(x, y) == new_cells@[grid_index(w as int, x, y)]);
            }
        }
    }
}

/// Mirroring an overlay twice gives back the overlay it started from.
pub proof fn lemma_highlight_mirror_twice(a: HighlightBoard, b: HighlightBoard, c: HighlightBoard)
    requires
        a.wf(),
        b.mirror_of(&a),
        c.mirror_of(&b),
    ensures
        c.width == a.width,
        c.total_height == a.total_height,
        c.cells@ == a.cells@,
{
    assert forall|i: int| 0 <= i < c.cells@.len() implies c.cells@[i] == a.cells@[i] by {
        if a.width > 0 {
            lemma_grid_index_decompose(a.width as int, a.total_height as int, i);
            let x = i % (a.width as int);
            let y = i / (a.width as int);
            assert(c.at(x, y) == b.at(a.width - 1 - x, y));
            assert(b.at(a.width - 1 - x, y) == a.at(x, y));
        } else {
            assert(a.width * a.total_height == 0) by (nonlinear_arith)
                requires
                    a.width == 0,
            ;
        }
    }
    assert(c.cells@ =~= a.cells@);
}

/// Whether column `x` of the shape holds a cell.
pub open spec fn shape_column_used(kind: Tetromino, rotation: Rotation, x: int) -> bool {
    shape_at(kind, rotation, x, 0) || shape_at(kind, rotation, x, 1) || shape_at(kind, rotation, x, 2)
        || shape_at(kind, rotation, x, 3)
}

/// Whether row `y` of the shape holds a cell.
pub open spec fn shape_row_used(kind: Tetromino, rotation: Rotation, y: int) -> bool {
    shape_at(kind, rotation, 0, y) || shape_at(kind, rotation, 1, y) || shape_at(kind, rotation, 2, y)
        || shape_at(kind, rotation, 3, y)
}

/// The leftmost column the shape uses.
pub open spec fn shape_min_x(kind: Tetromino, rotation: Rotation) -> int {
    if shape_column_used(kind, rotation, 0) {
        0
    } else if shape_column_used(kind, rotation, 1) {
        1
    } else if shape_column_used(kind, rotation, 2) {
        2
    } else {
        3
    }
}

/// The topmost row the shape uses.
pub open spec fn shape_min_y(kind: Tetromino, rotation: Rotation) -> int {
    if shape_row_used(kind, rotation, 0) {
        0
    } else if shape_row_used(kind, rotation, 1) {
        1
    } else if shape_row_used(kind, rotation, 2) {
        2
    } else {
        3
    }
}

/// The smallest column among the first `n` coordinates.
pub open spec fn coords_min_x(coords: Seq<(usize, usize)>, n: int) -> int
    decreases n,
{
    if n <= 1 {
        coords[0].0 as int
    } else {
        let m = coords_min_x(coords, n - 1);
        if (coords[n - 1].0 as int) < m {
            coords[n - 1].0 as int
        } else {
            m
        }
    }
}

/// The smallest row among the first `n` coordinates.
pub open spec fn coords_min_y(coords: Seq<(usize, usize)>, n: int) -> int
    decreases n,
{
    if n <= 1 {
        coords[0].1 as int
    } else {
        let m = coords_min_y(coords, n - 1);
        if (coords[n - 1].1 as int) < m {
            coords[n - 1].1 as int
        } else {
            m
        }
    }
}

/// The four coordinates, moved so that their top-left corner meets the
/// shape's, are the shape's four cells, each once.
pub open spec fn coords_fit_shape(coords: Seq<(usize, usize)>, kind: Tetromino, rotation: Rotation) -> bool {
    let mx = coords_min_x(coords, coords.len() as int);
    let my = coords_min_y(coords, coords.len() as int);
    &&& coords.len() == 4
    &&& coords.no_duplicates()
    &&& forall|i: int|
        0 <= i < 4 ==> #[trigger] shape_at(
            kind,
            rotation,
            coords[i].0 - mx + shape_min_x(kind, rotation),
            coords[i].1 - my + shape_min_y(kind, rotation),
        )
}

/// Whether the coordinates form `kind` in one of its orientations.
pub open spec fn coords_fit_kind(coords: Seq<(usize, usize)>, kind: Tetromino) -> bool {
    ||| coords_fit_shape(coords, kind, Rotation::Spawn)
    ||| coords_fit_shape(coords, kind, Rotation::Left)
    ||| coords_fit_shape(coords, kind, Rotation::Reverse)
    ||| coords_fit_shape(coords, kind, Rotation::Right)
}

/// The first of I, J, S, O, Z, L, T that the four coordinates form.
pub open spec fn spec_piece_from_coords(coords: Seq<(usize, usize)>) -> Option<Tetromino> {
    if coords.len() != 4 {
        None
    } else if coords_fit_kind(coords, Tetromino::I) {
        Some(Tetromino::I)
    } else if coords_fit_kind(coords, Tetromino::J) {
        Some(Tetromino::J)
    } else if coords_fit_kind(coords, Tetromino::S) {
        Some(Tetromino::S)
    } else if coords_fit_kind(coords, Tetromino::O) {
        Some(Tetromino::O)
    } else if coords_fit_kind(coords, Tetromino::Z) {
        Some(Tetromino::Z)
    } else if coords_fit_kind(coords, Tetromino::L) {
        Some(Tetromino::L)
    } else if coords_fit_kind(coords, Tetromino::T) {
        Some(Tetromino::T)
    } else {
        None
    }
}

/// The leftmost column and topmost row the shape uses.
fn shape_corner(kind: Tetromino, rotation: Rotation) -> (r: (usize, usize))
    ensures
        r.0 == shape_min_x(kind, rotation),
        r.1 == shape_min_y(kind, rotation),
{
    let shape = piece_shape(kind, rotation);
    let used_x = |x: usize| -> (b: bool)
        requires
            x < 4,
        ensures
            b == shape_column_used(kind, rotation, x as int),
        { shape[x][0] || shape[x][1] || shape[x][2] || shape[x][3] };
    let used_y = |y: usize| -> (b: bool)
        requires
            y < 4,
        ensures
            b == shape_row_used(kind, rotation, y as int),
        { shape[0][y] || shape[1][y] || shape[2][y] || shape[3][y] };
    let min_x = if used_x(0) {
        0
    } else if used_x(1) {
        1
    } else if used_x(2) {
        2
    } else {
        3
    };
    let min_y = if used_y(0) {
        0
    } else if used_y(1) {
        1
    } else if used_y(2) {
        2
    } else {
        3
    };
    (min_x, min_y)
}

/// Whether the normalised coordinates (offsets from their top-left corner)
/// are the cells of the shape, each once.
fn normalized_fit(
    coords: &Vec<(usize, usize)>,
    mx: usize,
    my: usize,
    kind: Tetromino,
    rotation: Rotation,
) -> (r: bool)
    requires
        coords@.len() == 4,
        mx == coords_min_x(coords@, 4),
        my == coords_min_y(coords@, 4),
        forall|i: int| 0 <= i < 4 ==> coords@[i].0 >= mx && coords@[i].1 >= my,
    ensures
        r == coords_fit_shape(coords@, kind, rotation),
{
    let shape = piece_shape(kind, rotation);
    let (sx, sy) = shape_corner(kind, rotation);
    let mut i: usize = 0;
    while i < 4
        invariant
            coords@.len() == 4,
            i <= 4,
            mx == coords_min_x(coords@, 4),
            my == coords_min_y(coords@, 4),
            sx == shape_min_x(kind, rotation),
            sy == shape_min_y(kind, rotation),
            forall|k: int| 0 <= k < 4 ==> coords@[k].0 >= mx && coords@[k].1 >= my,
            forall|a: int, b: int|
                0 <= a < 4 && 0 <= b < 4 ==> #[trigger] shape@[a]@[b] == shape_at(kind, rotation, a, b),
            forall|k: int|
                0 <= k < i ==> #[trigger] shape_at(
                    kind,
                    rotation,
                    coords@[k].0 - mx + sx,
                    coords@[k].1 - my + sy,
                ),
            forall|k: int, l: int| 0 <= k < l < i ==> coords@[k] != coords@[l],
        decreases 4 - i,
    {
        let (x, y) = coords[i];
        let dx = x - mx;
        let dy = y - my;
        if dx >= 4 || dy >= 4 || dx + sx >= 4 || dy + sy >= 4 {
            proof {
                assert(!shape_at(
                    kind,
                    rotation,
                    coords@[i as int].0 - mx + shape_min_x(kind, rotation),
                    coords@[i as int].1 - my + shape_min_y(kind, rotation),
                ));
            }
            return false;
        }
        if !shape[dx + sx][dy + sy] {
            proof {
                assert(!shape_at(
                    kind,
                    rotation,
                    coords@[i as int].0 - mx + shape_min_x(kind, rotation),
                    coords@[i as int].1 - my + shape_min_y(kind, rotation),
                ));
            }
            return false;
        }
        let mut j: usize = 0;
        while j < i
            invariant
                coords@.len() == 4,
                i < 4,
                j <= i,
                (x, y) == coords@[i as int],
                forall|l: int| 0 <= l < j ==> coords@[l] != coords@[i as int],
            decreases i - j,
        {
            let (px, py) = coords[j];
            if px == x && py == y {
                return false;
            }
            j += 1;
        }
        i += 1;
    }
    proof {
        assert(coords@.no_duplicates()) by {
            assert forall|k: int, l: int| 0 <= k < coords@.len() && 0 <= l < coords@.len() && k != l
                implies coords@[k] != coords@[l] by {
                if k < l {
                } else {
                }
            }
        }
    }
    true
}

/// The standard piece whose shape the four coordinates form, trying I, J,
/// S, O, Z, L, T in that order and every orientation of each; `None` for
/// any other shape or count.
pub fn piece_from_coords(coords: &Vec<(usize, usize)>) -> (r: Option<Tetromino>)
    ensures
        r == spec_piece_from_coords(coords@),
{
    if coords.len() != 4 {
        return None;
    }
    let mut mx = coords[0].0;
    let mut my = coords[0].1;
    let mut i: usize = 1;
    while i < 4
        invariant
            coords@.len() == 4,
            1 <= i <= 4,
            mx == coords_min_x(coords@, i as int),
            my == coords_min_y(coords@, i as int),
            forall|k: int| 0 <= k < i ==> coords@[k].0 >= mx && coords@[k].1 >= my,
        decreases 4 - i,
    {
        if coords[i].0 < mx {
            mx = coords[i].0;
        }
        if coords[i].1 < my {
            my = coords[i].1;
        }
        i += 1;
    }
    let pieces = all_pieces();
    let rotations: [Rotation; 4] = [Rotation::Spawn, Rotation::Left, Rotation::Reverse, Rotation::Right];
    let mut p: usize = 0;
    while p < 7
        invariant
            coords@.len() == 4,
            p <= 7,
            pieces@ == all_pieces_seq(),
            rotations@ == seq![Rotation::Spawn, Rotation::Left, Rotation::Reverse, Rotation::Right],
            mx == coords_min_x(coords@, 4),
            my == coords_min_y(coords@, 4),
            forall|k: int| 0 <= k < 4 ==> coords@[k].0 >= mx && coords@[k].1 >= my,
            forall|q: int| 0 <= q < p ==> !coords_fit_kind(coords@, #[trigger] all_pieces_seq()[q]),
        decreases 7 - p,
    {
        let kind = pieces[p];
        let mut k: usize = 0;
        while k < 4
            invariant
                coords@.len() == 4,
                p < 7,
                k <= 4,
                kind == all_pieces_seq()[p as int],
                rotations@ == seq![Rotation::Spawn, Rotation::Left, Rotation::Reverse, Rotation::Right],
                mx == coords_min_x(coords@, 4),
                my == coords_min_y(coords@, 4),
                forall|q: int| 0 <= q < 4 ==> coords@[q].0 >= mx && coords@[q].1 >= my,
                forall|q: int| 0 <= q < p ==> !coords_fit_kind(coords@, #[trigger] all_pieces_seq()[q]),
                forall|q: int| 0 <= q < k ==> !coords_fit_shape(coords@, kind, #[trigger] rotations@[q]),
            decreases 4 - k,
        {
            if normalized_fit(coords, mx, my, kind, rotations[k]) {
                proof {
                    assert(coords_fit_kind(coords@, kind));
                    assert(forall|q: int| 0 <= q < p ==> !coords_fit_kind(coords@, #[trigger] all_pieces_seq()[q]));
                }
                return Some(kind);
            }
            k += 1;
        }
        proof {
            assert(!coords_fit_shape(coords@, kind, rotations@[0]));
            assert(!coords_fit_shape(coords@, kind, rotations@[1]));
            assert(!coords_fit_shape(coords@, kind, rotations@[2]));
            assert(!coords_fit_shape(coords@, kind, rotations@[3]));
        }
        p += 1;
    }
    proof {
        assert(!coords_fit_kind(coords@, all_pieces_seq()[0]));
        assert(!coords_fit_kind(coords@, all_pieces_seq()[1]));
        assert(!coords_fit_kind(coords@, all_pieces_seq()[2]));
        assert(!coords_fit_kind(coords@, all_pieces_seq()[3]));
        assert(!coords_fit_kind(coords@, all_pieces_seq()[4]));
        assert(!coords_fit_kind(coords@, all_pieces_seq()[5]));
        assert(!coords_fit_kind(coords@, all_pieces_seq()[6]));
    }
    None
}

/// Whether `p` is waiting in the queue.
pub open spec fn queued(queue: Seq<(usize, usize)>, p: (int, int)) -> bool {
    exists|i: int| 0 <= i < queue.len() && #[trigger] point(queue[i]) == p
}

/// Popping `(x, y)` off the queue and marking it keeps every square that
/// was marked or waiting either marked or waiting.
proof fn lemma_pop_keeps(
    b: Board,
    vis_before: Seq<bool>,
    vis_now: Seq<bool>,
    q_before: Seq<(usize, usize)>,
    q_now: Seq<(usize, usize)>,
    x: usize,
    y: usize,
    n: (int, int),
)
    requires
        b.wf(),
        q_before.len() >= 1,
        q_before[0] == (x, y),
        q_now.len() >= q_before.len() - 1,
        forall|i: int| 0 <= i < q_before.len() - 1 ==> q_now[i] == q_before[i + 1],
        vis_now.len() == vis_before.len(),
        vis_before.len() == b.cells@.len(),
        b.spec_in_bounds(x as int, y as int),
        vis_now[square_index(b, (x as int, y as int))],
        forall|i: int| 0 <= i < vis_before.len() && vis_before[i] ==> vis_now[i],
        b.spec_in_bounds(n.0, n.1),
        vis_before[square_index(b, n)] || queued(q_before, n),
    ensures
        vis_now[square_index(b, n)] || queued(q_now, n),
{
    lemma_grid_index_bounds(b.width as int, b.total(), n.0, n.1);
    if !vis_now[square_index(b, n)] {
        let i = choose|i: int| 0 <= i < q_before.len() && #[trigger] point(q_before[i]) == n;
        if i == 0 {
            assert(n == (x as int, y as int));
        } else {
            assert(point(q_now[i - 1]) == n);
        }
    }
}

/// Collects the gray region around the unmarked gray square
/// `(start_x, start_y)` by a breadth-first walk, marking every square it
/// looks at (gray or not) in `visited`.
fn collect_gray_component(
    board: &Board,
    start_x: usize,
    start_y: usize,
    visited: &mut Vec<bool>,
) -> (cells: Vec<(usize, usize)>)
    requires
        board.wf(),
        old(visited)@.len() == board.cells@.len(),
        gray_at(*board, (start_x as int, start_y as int)),
        !old(visited)@[square_index(*board, (start_x as int, start_y as int))],
        marks_closed(*board, old(visited)@),
    ensures
        final(visited)@.len() == old(visited)@.len(),
        forall|i: int| 0 <= i < old(visited)@.len() && old(visited)@[i] ==> final(visited)@[i],
        forall|p: (int, int)|
            board.spec_in_bounds(p.0, p.1) && #[trigger] final(visited)@[square_index(*board, p)]
                && !old(visited)@[square_index(*board, p)] ==> !gray_at(*board, p) || gray_linked(
                *board,
                (start_x as int, start_y as int),
                p,
            ),
        lists_region(*board, (start_x as int, start_y as int), cells@),
        forall|j: int|
            0 <= j < cells@.len() ==> #[trigger] final(visited)@[square_index(*board, point(cells@[j]))]
                && board.spec_in_bounds(cells@[j].0 as int, cells@[j].1 as int),
{
    let ghost b = *board;
    let ghost s: (int, int) = (start_x as int, start_y as int);
    let ghost v0 = visited@;
    let w = board.width;
    let h = board.total_height();
    proof {
        lemma_grid_index_bounds(w as int, h as int, s.0, s.1);
    }
    let mut queue: VecDeque<(usize, usize)> = VecDeque::new();
    queue.push_back((start_x, start_y));
    let mut cells: Vec<(usize, usize)> = Vec::new();
    assert(point(queue@[0]) == s);
    loop
        invariant
            b == *board,
            b.wf(),
            w == b.width,
            h == b.total(),
            s == (start_x as int, start_y as int),
            gray_at(b, s),
            !v0[square_index(b, s)],
            marks_closed(b, v0),
            v0.len() == b.cells@.len(),
            visited@.len() == v0.len(),
            forall|i: int| 0 <= i < v0.len() && v0[i] ==> visited@[i],
            forall|i: int| 0 <= i < queue@.len() ==> (#[trigger] queue@[i]).0 < w && queue@[i].1 < h,
            forall|i: int|
                0 <= i < queue@.len() ==> point(#[trigger] queue@[i]) == s || exists|j: int|
                    0 <= j < cells@.len() && #[trigger] adjacent(point(cells@[j]), point(queue@[i])),
            forall|j: int|
                0 <= j < cells@.len() ==> {
                    &&& gray_at(b, point(#[trigger] cells@[j]))
                    &&& gray_linked(b, s, point(cells@[j]))
                    &&& visited@[square_index(b, point(cells@[j]))]
                    &&& cells@[j].0 < w
                    &&& cells@[j].1 < h
                },
            cells@.no_duplicates(),
            forall|j: int, n: (int, int)|
                0 <= j < cells@.len() && b.spec_in_bounds(n.0, n.1) && #[trigger] adjacent(
                    point(cells@[j]),
                    n,
                ) ==> visited@[square_index(b, n)] || queued(queue@, n),
            forall|p: (int, int)|
                b.spec_in_bounds(p.0, p.1) && #[trigger] visited@[square_index(b, p)]
                    && !v0[square_index(b, p)] ==> !gray_at(b, p) || listed(cells@, p),
            visited@[square_index(b, s)] || queued(queue@, s),
        ensures
            queue@.len() == 0,
            visited@.len() == v0.len(),
            forall|i: int| 0 <= i < v0.len() && v0[i] ==> visited@[i],
            forall|j: int|
                0 <= j < cells@.len() ==> {
                    &&& gray_at(b, point(#[trigger] cells@[j]))
                    &&& gray_linked(b, s, point(cells@[j]))
                    &&& visited@[square_index(b, point(cells@[j]))]
                    &&& cells@[j].0 < w
                    &&& cells@[j].1 < h
                },
            cells@.no_duplicates(),
            forall|j: int, n: (int, int)|
                0 <= j < cells@.len() && b.spec_in_bounds(n.0, n.1) && #[trigger] adjacent(
                    point(cells@[j]),
                    n,
                ) ==> visited@[square_index(b, n)],
            forall|p: (int, int)|
                b.spec_in_bounds(p.0, p.1) && #[trigger] visited@[square_index(b, p)]
                    && !v0[square_index(b, p)] ==> !gray_at(b, p) || listed(cells@, p),
            visited@[square_index(b, s)],
        decreases unmarked(visited@), queue@.len(),
    {
        let ghost q_before = queue@;
        let ghost vis_before = visited@;
        match queue.pop_front() {
            None => {
                break;
            },
            Some((x, y)) => {
                proof {
                    assert(q_before[0] == (x, y));
                    assert(queue@ =~= q_before.drop_first());
                    lemma_grid_index_bounds(w as int, h as int, x as int, y as int);
                }
                let index = y * w + x;
                if visited[index] {
                    proof {
                        assert forall|j: int, n: (int, int)|
                            0 <= j < cells@.len() && b.spec_in_bounds(n.0, n.1) && #[trigger] adjacent(
                                point(cells@[j]),
                                n,
                            ) implies visited@[square_index(b, n)] || queued(queue@, n) by {
                            lemma_pop_keeps(b, vis_before, visited@, q_before, queue@, x, y, n);
                        }
                        lemma_grid_index_bounds(w as int, h as int, s.0, s.1);
                        lemma_pop_keeps(b, vis_before, visited@, q_before, queue@, x, y, s);
                    }
                    continue;
                }
                let ghost cells_before = cells@;
                proof {
                    lemma_mark_one(visited@, index as int);
                }
                visited.set(index, true);
                let ghost p: (int, int) = (x as int, y as int);
                assert(square_index(b, p) == index);
                proof {
                    assert forall|j: int| 0 <= j < cells@.len() implies visited@[square_index(
                        b,
                        point(#[trigger] cells@[j]),
                    )] by {
                        lemma_grid_index_bounds(w as int, h as int, cells@[j].0 as int, cells@[j].1 as int);
                    }
                }
                if board.get(x, y) != Cell::Gray {
                    proof {
                        assert forall|j: int, n: (int, int)|
                            0 <= j < cells@.len() && b.spec_in_bounds(n.0, n.1) && #[trigger] adjacent(
                                point(cells@[j]),
                                n,
                            ) implies visited@[square_index(b, n)] || queued(queue@, n) by {
                            lemma_grid_index_bounds(w as int, h as int, n.0, n.1);
                            lemma_pop_keeps(b, vis_before, visited@, q_before, queue@, x, y, n);
                        }
                        assert forall|pp: (int, int)|
                            b.spec_in_bounds(pp.0, pp.1) && #[trigger] visited@[square_index(b, pp)]
                                && !v0[square_index(b, pp)] implies !gray_at(b, pp) || listed(
                            cells@,
                            pp,
                        ) by {
                            lemma_grid_index_bounds(w as int, h as int, pp.0, pp.1);
                            if square_index(b, pp) == index {
                                lemma_grid_index_unique(w as int, pp.0, pp.1, x as int, y as int);
                            }
                        }
                        lemma_grid_index_bounds(w as int, h as int, s.0, s.1);
                        lemma_pop_keeps(b, vis_before, visited@, q_before, queue@, x, y, s);
                    }
                    continue;
                }
                proof {
                    assert(gray_at(b, p));
                    if point(q_before[0]) == s {
                        lemma_linked_self(b, s);
                    } else {
                        let j = choose|j: int|
                            0 <= j < cells_before.len() && #[trigger] adjacent(point(cells_before[j]), point(q_before[0]));
                        lemma_linked_step(b, s, point(cells_before[j]), p);
                    }
                    assert forall|j: int| 0 <= j < cells_before.len() implies point(cells_before[j]) != p by {
                        if point(cells_before[j]) == p {
                            assert(vis_before[square_index(b, point(cells_before[j]))]);
                        }
                    }
                }
                cells.push((x, y));
                if x > 0 {
                    queue.push_back((x - 1, y));
                }
                if x + 1 < w {
                    queue.push_back((x + 1, y));
                }
                if y > 0 {
                    queue.push_back((x, y - 1));
                }
                if y + 1 < h {
                    queue.push_back((x, y + 1));
                }
                proof {
                    let c = cells@.len() - 1;
                    assert(point(cells@[c]) == p);
                    assert forall|i: int| 0 <= i < queue@.len() implies point(#[trigger] queue@[i]) == s
                        || exists|j: int|
                        0 <= j < cells@.len() && #[trigger] adjacent(point(cells@[j]), point(queue@[i])) by {
                        if i < q_before.len() - 1 {
                            assert(queue@[i] == q_before[i + 1]);
                            if point(q_before[i + 1]) != s {
                                let j = choose|j: int|
                                    0 <= j < cells_before.len() && #[trigger] adjacent(
                                        point(cells_before[j]),
                                        point(q_before[i + 1]),
                                    );
                                assert(cells@[j] == cells_before[j]);
                            }
                        } else {
                            assert(adjacent(point(cells@[c]), point(queue@[i])));
                        }
                    }
                    assert forall|i: int| 0 <= i < queue@.len() implies (#[trigger] queue@[i]).0 < w
                        && queue@[i].1 < h by {
                        if i < q_before.len() - 1 {
                            assert(queue@[i] == q_before[i + 1]);
                        }
                    }
                    assert(cells@.no_duplicates()) by {
                        assert forall|i: int, j: int|
                            0 <= i < cells@.len() && 0 <= j < cells@.len() && i != j implies cells@[i]
                            != cells@[j] by {
                            if i == c {
                                assert(point(cells@[j]) != p);
                            } else if j == c {
                                assert(point(cells@[i]) != p);
                            }
                        }
                    }
                    assert forall|j: int, n: (int, int)|
                        0 <= j < cells@.len() && b.spec_in_bounds(n.0, n.1) && #[trigger] adjacent(
                            point(cells@[j]),
                            n,
                        ) implies visited@[square_index(b, n)] || queued(queue@, n) by {
                        lemma_grid_index_bounds(w as int, h as int, n.0, n.1);
                        if j == c {
                            let k = q_before.len() - 1;
                            if n.0 == p.0 - 1 && n.1 == p.1 {
                                assert(point(queue@[k]) == n);
                            } else if n.0 == p.0 + 1 && n.1 == p.1 {
                                let k2 = k + (if x > 0 {
                                    1int
                                } else {
                                    0int
                                });
                                assert(point(queue@[k2]) == n);
                            } else if n.0 == p.0 && n.1 == p.1 - 1 {
                                let k3 = k + (if x > 0 {
                                    1int
                                } else {
                                    0int
                                }) + (if x + 1 < w {
                                    1int
                                } else {
                                    0int
                                });
                                assert(point(queue@[k3]) == n);
                            } else {
                                let k4 = k + (if x > 0 {
                                    1int
                                } else {
                                    0int
                                }) + (if x + 1 < w {
                                    1int
                                } else {
                                    0int
                                }) + (if y > 0 {
                                    1int
                                } else {
                                    0int
                                });
                                assert(point(queue@[k4]) == n);
                            }
                        } else {
                            assert(cells@[j] == cells_before[j]);
                            lemma_pop_keeps(b, vis_before, visited@, q_before, queue@, x, y, n);
                        }
                    }
                    lemma_pop_keeps(b, vis_before, visited@, q_before, queue@, x, y, s);
                    assert forall|pp: (int, int)|
                        b.spec_in_bounds(pp.0, pp.1) && #[trigger] visited@[square_index(b, pp)]
                            && !v0[square_index(b, pp)] implies !gray_at(b, pp) || listed(cells@, pp) by {
                        lemma_grid_index_bounds(w as int, h as int, pp.0, pp.1);
                        if square_index(b, pp) == index {
                            lemma_grid_index_unique(w as int, pp.0, pp.1, x as int, y as int);
                            assert(point(cells@[c]) == pp);
                        } else if gray_at(b, pp) {
                            assert(vis_before[square_index(b, pp)]);
                            let j = choose|j: int| 0 <= j < cells_before.len() && #[trigger] point(cells_before[j]) == pp;
                            assert(point(cells@[j]) == pp);
                        }
                    }
                }
            },
        }
    }
    proof {
        assert forall|q: (int, int)| #[trigger] gray_linked(b, s, q) implies listed(cells@, q) by {
            let path = choose|path: Seq<(int, int)>| #[trigger] gray_path(b, path) && path[0] == s && path.last() == q;
            assert(listed(cells@, s));
            assert forall|j: int, n: (int, int)|
                0 <= j < cells@.len() && gray_at(b, n) && #[trigger] adjacent(point(cells@[j]), n)
                    implies listed(cells@, n) by {
                lemma_grid_index_bounds(w as int, h as int, n.0, n.1);
                assert(visited@[square_index(b, n)]);
                if v0[square_index(b, n)] {
                    lemma_linked_step(b, s, point(cells@[j]), n);
                    let walk = choose|walk: Seq<(int, int)>| #[trigger] gray_path(b, walk) && walk[0] == s && walk.last() == n;
                    lemma_marks_reach_back(b, v0, walk);
                }
            }
            lemma_closed_set_holds_path(b, cells@, path);
        }
        assert forall|pp: (int, int)|
            board.spec_in_bounds(pp.0, pp.1) && #[trigger] visited@[square_index(*board, pp)]
                && !v0[square_index(*board, pp)] implies !gray_at(*board, pp) || gray_linked(*board, s, pp) by {
            if gray_at(b, pp) {
                let j = choose|j: int| 0 <= j < cells@.len() && #[trigger] point(cells@[j]) == pp;
            }
        }
    }
    cells
}

/// The first `n` coordinates reach down to `coords_min_x` and
/// `coords_min_y` and never below.
proof fn lemma_coords_min(coords: Seq<(usize, usize)>, n: int)
    requires
        1 <= n <= coords.len(),
    ensures
        forall|i: int| 0 <= i < n ==> coords[i].0 >= coords_min_x(coords, n) && coords[i].1 >= coords_min_y(coords, n),
        exists|i: int| 0 <= i < n && coords[i].0 == coords_min_x(coords, n),
        exists|i: int| 0 <= i < n && coords[i].1 == coords_min_y(coords, n),
    decreases n,
{
    if n > 1 {
        lemma_coords_min(coords, n - 1);
    } else {
        assert(coords[0].0 == coords_min_x(coords, n));
        assert(coords[0].1 == coords_min_y(coords, n));
    }
}

/// Two listings of the same squares name the same piece.
proof fn lemma_listings_agree(b: Board, p: (int, int), c1: Seq<(usize, usize)>, c2: Seq<(usize, usize)>)
    requires
        lists_region(b, p, c1),
        lists_region(b, p, c2),
    ensures
        spec_piece_from_coords(c1) == spec_piece_from_coords(c2),
{
    assert forall|i: int| 0 <= i < c1.len() implies #[trigger] c2.contains(c1[i]) by {
        assert(gray_linked(b, p, point(c1[i])));
        let j = choose|j: int| 0 <= j < c2.len() && #[trigger] point(c2[j]) == point(c1[i]);
        assert(c2[j] == c1[i]);
    }
    assert forall|j: int| 0 <= j < c2.len() implies #[trigger] c1.contains(c2[j]) by {
        assert(gray_linked(b, p, point(c2[j])));
        let i = choose|i: int| 0 <= i < c1.len() && #[trigger] point(c1[i]) == point(c2[j]);
        assert(c1[i] == c2[j]);
    }
    assert(c1.to_set() =~= c2.to_set()) by {
        assert forall|e: (usize, usize)| c1.to_set().contains(e) implies c2.to_set().contains(e) by {
            let i = choose|i: int| 0 <= i < c1.len() && c1[i] == e;
            assert(c2.contains(c1[i]));
        }
        assert forall|e: (usize, usize)| c2.to_set().contains(e) implies c1.to_set().contains(e) by {
            let j = choose|j: int| 0 <= j < c2.len() && c2[j] == e;
            assert(c1.contains(c2[j]));
        }
    }
    c1.unique_seq_to_set();
    c2.unique_seq_to_set();
    if c1.len() == 4 {
        lemma_coords_min(c1, 4);
        lemma_coords_min(c2, 4);
        let (m1x, m1y) = (coords_min_x(c1, 4), coords_min_y(c1, 4));
        let (m2x, m2y) = (coords_min_x(c2, 4), coords_min_y(c2, 4));
        let i1 = choose|i: int| 0 <= i < 4 && c1[i].0 == m1x;
        let i2 = choose|i: int| 0 <= i < 4 && c2[i].0 == m2x;
        assert(c2.contains(c1[i1]));
        assert(c1.contains(c2[i2]));
        assert(m1x == m2x);
        let k1 = choose|i: int| 0 <= i < 4 && c1[i].1 == m1y;
        let k2 = choose|i: int| 0 <= i < 4 && c2[i].1 == m2y;
        assert(c2.contains(c1[k1]));
        assert(c1.contains(c2[k2]));
        assert(m1y == m2y);
        assert forall|kind: Tetromino, rotation: Rotation|
            #[trigger] coords_fit_shape(c1, kind, rotation) == coords_fit_shape(c2, kind, rotation) by {
            let sx = shape_min_x(kind, rotation);
            let sy = shape_min_y(kind, rotation);
            if coords_fit_shape(c1, kind, rotation) {
                assert forall|j: int| 0 <= j < 4 implies #[trigger] shape_at(
                    kind,
                    rotation,
                    c2[j].0 - m2x + sx,
                    c2[j].1 - m2y + sy,
                ) by {
                    assert(c1.contains(c2[j]));
                    let i = choose|i: int| 0 <= i < c1.len() && c1[i] == c2[j];
                    assert(shape_at(kind, rotation, c1[i].0 - m1x + sx, c1[i].1 - m1y + sy));
                }
            }
            if coords_fit_shape(c2, kind, rotation) {
                assert forall|i: int| 0 <= i < 4 implies #[trigger] shape_at(
                    kind,
                    rotation,
                    c1[i].0 - m1x + sx,
                    c1[i].1 - m1y + sy,
                ) by {
                    assert(c2.contains(c1[i]));
                    let j = choose|j: int| 0 <= j < c2.len() && c2[j] == c1[i];
                    assert(shape_at(kind, rotation, c2[j].0 - m2x + sx, c2[j].1 - m2y + sy));
                }
            }
        }
        assert forall|kind: Tetromino| #[trigger] coords_fit_kind(c1, kind) == coords_fit_kind(c2, kind) by {
            assert(coords_fit_shape(c1, kind, Rotation::Spawn) == coords_fit_shape(c2, kind, Rotation::Spawn));
            assert(coords_fit_shape(c1, kind, Rotation::Left) == coords_fit_shape(c2, kind, Rotation::Left));
            assert(coords_fit_shape(c1, kind, Rotation::Reverse) == coords_fit_shape(c2, kind, Rotation::Reverse));
            assert(coords_fit_shape(c1, kind, Rotation::Right) == coords_fit_shape(c2, kind, Rotation::Right));
        }
        assert(coords_fit_kind(c1, Tetromino::I) == coords_fit_kind(c2, Tetromino::I));
        assert(coords_fit_kind(c1, Tetromino::J) == coords_fit_kind(c2, Tetromino::J));
        assert(coords_fit_kind(c1, Tetromino::S) == coords_fit_kind(c2, Tetromino::S));
        assert(coords_fit_kind(c1, Tetromino::O) == coords_fit_kind(c2, Tetromino::O));
        assert(coords_fit_kind(c1, Tetromino::Z) == coords_fit_kind(c2, Tetromino::Z));
        assert(coords_fit_kind(c1, Tetromino::L) == coords_fit_kind(c2, Tetromino::L));
        assert(coords_fit_kind(c1, Tetromino::T) == coords_fit_kind(c2, Tetromino::T));
    }
}

/// The piece the gray region of `p` forms: the piece its four squares are
/// the shape of, or `None` for any other region.
pub open spec fn region_piece(b: Board, p: (int, int)) -> Option<Tetromino> {
    spec_piece_from_coords(choose|cs: Seq<(usize, usize)>| lists_region(b, p, cs))
}

/// The cell a square holds once gray regions are coloured: a gray square
/// in a region shaped like a standard piece takes that piece's colour,
/// every other square keeps its cell.
pub open spec fn auto_colored_at(b: Board, x: int, y: int) -> Cell {
    if gray_at(b, (x, y)) && region_piece(b, (x, y)) is Some {
        spec_cell_from_piece(region_piece(b, (x, y))->0)
    } else {
        b.at(x, y)
    }
}

/// Gives every gray region of exactly four squares that forms a standard
/// piece that piece's colour.
pub fn auto_color_board(board: &mut Board)
    requires
        old(board).wf(),
    ensures
        final(board).wf(),
        final(board).same_shape(old(board)),
        forall|x: int, y: int|
            #![trigger final(board).at(x, y)]
            old(board).spec_in_bounds(x, y) ==> final(board).at(x, y) == auto_colored_at(
                *old(board),
                x,
                y,
            ),
{
    let ghost b0 = *board;
    let total_height = board.total_height();
    let w = board.width;
    let n = w * total_height;
    let mut visited: Vec<bool> = Vec::new();
    let mut i: usize = 0;
    while i < n
        invariant
            i <= n,
            visited@.len() == i,
            forall|j: int| 0 <= j < i ==> !visited@[j],
        decreases n - i,
    {
        visited.push(false);
        i += 1;
    }
    proof {
        assert forall|c: (int, int)| b0.spec_in_bounds(c.0, c.1) implies !#[trigger] visited@[square_index(
            b0,
            c,
        )] by {
            lemma_grid_index_bounds(w as int, total_height as int, c.0, c.1);
        }
    }
    let mut y: usize = 0;
    while y < total_height
        invariant
            b0.wf(),
            board.wf(),
            board.same_shape(&b0),
            w == b0.width,
            total_height == b0.total(),
            n == w * total_height,
            visited@.len() == n,
            y <= total_height,
            marks_closed(b0, visited@),
            forall|c: (int, int)|
                #![trigger board.at(c.0, c.1)]
                b0.spec_in_bounds(c.0, c.1) ==> board.at(c.0, c.1) == if gray_at(b0, c)
                    && visited@[square_index(b0, c)] {
                    auto_colored_at(b0, c.0, c.1)
                } else {
                    b0.at(c.0, c.1)
                },
            forall|c: (int, int)|
                b0.spec_in_bounds(c.0, c.1) && c.1 < y ==> #[trigger] visited@[square_index(b0, c)]
                    || !gray_at(b0, c),
        decreases total_height - y,
    {
        let mut x: usize = 0;
        while x < w
            invariant
                b0.wf(),
                board.wf(),
                board.same_shape(&b0),
                w == b0.width,
                total_height == b0.total(),
                n == w * total_height,
                visited@.len() == n,
                y < total_height,
                x <= w,
                marks_closed(b0, visited@),
                forall|c: (int, int)|
                    #![trigger board.at(c.0, c.1)]
                    b0.spec_in_bounds(c.0, c.1) ==> board.at(c.0, c.1) == if gray_at(b0, c)
                        && visited@[square_index(b0, c)] {
                        auto_colored_at(b0, c.0, c.1)
                    } else {
                        b0.at(c.0, c.1)
                    },
                forall|c: (int, int)|
                    b0.spec_in_bounds(c.0, c.1) && (c.1 < y || (c.1 == y && c.0 < x))
                        ==> #[trigger] visited@[square_index(b0, c)] || !gray_at(b0, c),
            decreases w - x,
        {
            let ghost c: (int, int) = (x as int, y as int);
            proof {
                lemma_grid_index_bounds(w as int, total_height as int, x as int, y as int);
                assert(board.at(c.0, c.1) == board.at(x as int, y as int));
            }
            let index = y * w + x;
            let ghost vis_before = visited@;
            proof {
                assert(square_index(b0, c) == index);
            }
            if !visited[index] && board.get(x, y) == Cell::Gray {
                proof {
                    assert(gray_at(b0, c));
                }
                color_region(board, x, y, &mut visited, Ghost(b0));
            }
            proof {
                assert forall|d: (int, int)|
                    b0.spec_in_bounds(d.0, d.1) && (d.1 < y || (d.1 == y && d.0 < x + 1))
                        implies #[trigger] visited@[square_index(b0, d)] || !gray_at(b0, d) by {
                    lemma_grid_index_bounds(w as int, total_height as int, d.0, d.1);
                    if d != c {
                        assert(vis_before[square_index(b0, d)] || !gray_at(b0, d));
                    } else {
                        assert(board.at(d.0, d.1) == board.at(x as int, y as int));
                    }
                }
            }
            x += 1;
        }
        y += 1;
    }
    proof {
        assert forall|xx: int, yy: int|
            #![trigger board.at(xx, yy)]
            b0.spec_in_bounds(xx, yy) implies board.at(xx, yy) == auto_colored_at(b0, xx, yy) by {
            let c = (xx, yy);
            assert(visited@[square_index(b0, c)] || !gray_at(b0, c));
            assert(board.at(c.0, c.1) == board.at(xx, yy));
        }
    }
}

/// Collects the gray region of the unmarked gray square `(x, y)` and, when
/// it forms a standard piece, gives its squares that piece's colour.
fn color_region(board: &mut Board, x: usize, y: usize, visited: &mut Vec<bool>, Ghost(b0): Ghost<Board>)
    requires
        b0.wf(),
        old(board).wf(),
        old(board).same_shape(&b0),
        old(visited)@.len() == b0.cells@.len(),
        b0.spec_in_bounds(x as int, y as int),
        gray_at(b0, (x as int, y as int)),
        !old(visited)@[square_index(b0, (x as int, y as int))],
        marks_closed(b0, old(visited)@),
        forall|c: (int, int)|
            #![trigger old(board).at(c.0, c.1)]
            b0.spec_in_bounds(c.0, c.1) ==> old(board).at(c.0, c.1) == if gray_at(b0, c)
                && old(visited)@[square_index(b0, c)] {
                auto_colored_at(b0, c.0, c.1)
            } else {
                b0.at(c.0, c.1)
            },
    ensures
        final(board).wf(),
        final(board).same_shape(&b0),
        final(visited)@.len() == old(visited)@.len(),
        marks_closed(b0, final(visited)@),
        forall|i: int| 0 <= i < old(visited)@.len() && old(visited)@[i] ==> final(visited)@[i],
        final(visited)@[square_index(b0, (x as int, y as int))],
        forall|c: (int, int)|
            #![trigger final(board).at(c.0, c.1)]
            b0.spec_in_bounds(c.0, c.1) ==> final(board).at(c.0, c.1) == if gray_at(b0, c)
                && final(visited)@[square_index(b0, c)] {
                auto_colored_at(b0, c.0, c.1)
            } else {
                b0.at(c.0, c.1)
            },
{
    let ghost b1 = *board;
    let ghost v1 = visited@;
    let ghost s: (int, int) = (x as int, y as int);
    proof {
        assert forall|c: (int, int)| #[trigger] gray_at(b1, c) implies gray_at(b0, c) by {
            assert(b1.at(c.0, c.1) == b0.at(c.0, c.1) || (gray_at(b0, c) && v1[square_index(b0, c)]));
            if gray_at(b0, c) && v1[square_index(b0, c)] {
            } else {
            }
        }
        assert(marks_closed(b1, v1)) by {
            assert forall|p: (int, int), q: (int, int)|
                #![trigger adjacent(p, q), v1[square_index(b1, p)], v1[square_index(b1, q)]]
                gray_at(b1, p) && gray_at(b1, q) && adjacent(p, q) && v1[square_index(b1, p)]
                    implies v1[square_index(b1, q)] by {
                assert(gray_at(b0, p) && gray_at(b0, q));
            }
        }
        assert(b1.at(s.0, s.1) == b0.at(s.0, s.1));
    }
    let cells = collect_gray_component(board, x, y, visited);
    let ghost v2 = visited@;
    proof {
        assert forall|p: (int, int)| #[trigger] square_index(b0, p) == square_index(b1, p) by {}
        assert forall|p: (int, int)|
            b0.spec_in_bounds(p.0, p.1) && #[trigger] v2[square_index(b0, p)] && !v1[square_index(b0, p)]
                implies !gray_at(b1, p) || gray_linked(b1, s, p) by {
            assert(v2[square_index(b1, p)]);
        }
        assert forall|j: int| 0 <= j < cells@.len() implies #[trigger] v2[square_index(b0, point(cells@[j]))]
            && b0.spec_in_bounds(cells@[j].0 as int, cells@[j].1 as int) by {
            assert(v2[square_index(b1, point(cells@[j]))]);
        }
        assert forall|j: int| 0 <= j < cells@.len() implies b0.spec_in_bounds(
            (#[trigger] cells@[j]).0 as int,
            cells@[j].1 as int,
        ) by {
            assert(v2[square_index(b0, point(cells@[j]))]);
        }
        // The region of `s` is the same on the partly coloured board as on the
        // original one.
        assert forall|q: (int, int)| gray_linked(b0, s, q) == gray_linked(b1, s, q) by {
            if gray_linked(b1, s, q) {
                lemma_linked_more_gray(b1, b0, s, q);
            }
            if gray_linked(b0, s, q) {
                assert forall|c: (int, int)| #[trigger] gray_linked(b0, s, c) implies gray_at(b1, c) by {
                    lemma_region_unmarked(b0, v1, s, c);
                    lemma_linked_gray(b0, s, c);
                }
                let path = choose|path: Seq<(int, int)>| #[trigger] gray_path(b0, path) && path[0] == s && path.last() == q;
                assert forall|i: int| 0 <= i < path.len() implies #[trigger] gray_at(b1, path[i]) by {
                    let prefix = path.subrange(0, i + 1);
                    assert(gray_path(b0, prefix)) by {
                        assert forall|k: int| 0 <= k < prefix.len() implies #[trigger] gray_at(b0, prefix[k]) by {
                            assert(prefix[k] == path[k]);
                        }
                        assert forall|k: int| 0 <= k < prefix.len() - 1 implies #[trigger] adjacent(
                            prefix[k],
                            prefix[k + 1],
                        ) by {
                            assert(prefix[k] == path[k] && prefix[k + 1] == path[k + 1]);
                        }
                    }
                    assert(gray_linked(b0, s, path[i]));
                }
                assert(gray_path(b1, path));
            }
        }
        assert(lists_region(b0, s, cells@));
    }
    if cells.len() == 4 {
        match piece_from_coords(&cells) {
            Some(piece) => {
                let cell = cell_from_piece(piece);
                let mut k: usize = 0;
                while k < cells.len()
                    invariant
                        board.wf(),
                        board.same_shape(&b0),
                        k <= cells@.len(),
                        cells@.no_duplicates(),
                        forall|j: int|
                            0 <= j < cells@.len() ==> b0.spec_in_bounds(
                                cells@[j].0 as int,
                                cells@[j].1 as int,
                            ),
                        forall|c: (int, int)|
                            #![trigger board.at(c.0, c.1)]
                            b0.spec_in_bounds(c.0, c.1) ==> board.at(c.0, c.1) == if exists|j: int|
                                0 <= j < k && #[trigger] point(cells@[j]) == c {
                                cell
                            } else {
                                b1.at(c.0, c.1)
                            },
                    decreases cells@.len() - k,
                {
                    let (cx, cy) = cells[k];
                    let ghost before = *board;
                    board.set(cx, cy, cell);
                    proof {
                        lemma_at_after_set(before, *board, cx as int, cy as int, cell);
                        assert forall|c: (int, int)|
                            #![trigger board.at(c.0, c.1)]
                            b0.spec_in_bounds(c.0, c.1) implies board.at(c.0, c.1) == if exists|j: int|
                                0 <= j < k + 1 && #[trigger] point(cells@[j]) == c {
                                cell
                            } else {
                                b1.at(c.0, c.1)
                            } by {
                            if c == point(cells@[k as int]) {
                            } else {
                                assert(board.at(c.0, c.1) == before.at(c.0, c.1));
                                if exists|j: int| 0 <= j < k + 1 && #[trigger] point(cells@[j]) == c {
                                    let j = choose|j: int| 0 <= j < k + 1 && #[trigger] point(cells@[j]) == c;
                                    assert(j < k);
                                }
                            }
                        }
                    }
                    k += 1;
                }
                proof {
                    color_region_done(b0, b1, *board, v1, v2, s, cells@, Some(piece));
                }
            },
            None => {
                proof {
                    color_region_done(b0, b1, *board, v1, v2, s, cells@, None);
                }
            },
        }
    } else {
        proof {
            color_region_done(b0, b1, *board, v1, v2, s, cells@, None);
        }
    }
}

/// After one region was collected and, if it forms a piece, coloured, the
/// colouring invariant holds with the new marks.
proof fn color_region_done(
    b0: Board,
    b1: Board,
    b2: Board,
    v1: Seq<bool>,
    v2: Seq<bool>,
    s: (int, int),
    cells: Seq<(usize, usize)>,
    piece: Option<Tetromino>,
)
    requires
        b0.wf(),
        b1.same_shape(&b0),
        b2.same_shape(&b0),
        v1.len() == b0.cells@.len(),
        v2.len() == v1.len(),
        gray_at(b0, s),
        !v1[square_index(b0, s)],
        marks_closed(b0, v1),
        forall|c: (int, int)|
            #![trigger b1.at(c.0, c.1)]
            b0.spec_in_bounds(c.0, c.1) ==> b1.at(c.0, c.1) == if gray_at(b0, c) && v1[square_index(
                b0,
                c,
            )] {
                auto_colored_at(b0, c.0, c.1)
            } else {
                b0.at(c.0, c.1)
            },
        lists_region(b0, s, cells),
        forall|i: int| 0 <= i < v1.len() && v1[i] ==> v2[i],
        forall|p: (int, int)|
            b0.spec_in_bounds(p.0, p.1) && #[trigger] v2[square_index(b0, p)] && !v1[square_index(b0, p)]
                ==> !gray_at(b1, p) || gray_linked(b1, s, p),
        forall|j: int| 0 <= j < cells.len() ==> #[trigger] v2[square_index(b0, point(cells[j]))],
        forall|q: (int, int)| gray_linked(b0, s, q) == gray_linked(b1, s, q),
        piece == spec_piece_from_coords(cells),
        forall|c: (int, int)|
            #![trigger b2.at(c.0, c.1)]
            b0.spec_in_bounds(c.0, c.1) ==> b2.at(c.0, c.1) == if piece is Some && listed(cells, c) {
                spec_cell_from_piece(piece->0)
            } else {
                b1.at(c.0, c.1)
            },
    ensures
        marks_closed(b0, v2),
        v2[square_index(b0, s)],
        forall|c: (int, int)|
            #![trigger b2.at(c.0, c.1)]
            b0.spec_in_bounds(c.0, c.1) ==> b2.at(c.0, c.1) == if gray_at(b0, c) && v2[square_index(
                b0,
                c,
            )] {
                auto_colored_at(b0, c.0, c.1)
            } else {
                b0.at(c.0, c.1)
            },
{
    let w = b0.width as int;
    let h = b0.total();
    // A newly marked gray square lies in the region.
    assert forall|p: (int, int)|
        b0.spec_in_bounds(p.0, p.1) && gray_at(b0, p) && #[trigger] v2[square_index(b0, p)] && !v1[square_index(b0, p)]
            implies listed(cells, p) by {
        assert(b1.at(p.0, p.1) == b0.at(p.0, p.1));
        assert(gray_at(b1, p));
        assert(gray_linked(b1, s, p));
    }
    lemma_linked_self(b0, s);
    assert(listed(cells, s));
    let js = choose|j: int| 0 <= j < cells.len() && #[trigger] point(cells[j]) == s;
    assert(v2[square_index(b0, point(cells[js]))]);
    assert(marks_closed(b0, v2)) by {
        assert forall|p: (int, int), q: (int, int)|
            #![trigger adjacent(p, q), v2[square_index(b0, p)], v2[square_index(b0, q)]]
            gray_at(b0, p) && gray_at(b0, q) && adjacent(p, q) && v2[square_index(b0, p)] implies v2[square_index(
                b0,
                q,
            )] by {
            lemma_grid_index_bounds(w, h, p.0, p.1);
            lemma_grid_index_bounds(w, h, q.0, q.1);
            if v1[square_index(b0, p)] {
                assert(v1[square_index(b0, q)]);
            } else {
                assert(listed(cells, p));
                let j = choose|j: int| 0 <= j < cells.len() && #[trigger] point(cells[j]) == p;
                assert(gray_linked(b0, s, point(cells[j])));
                lemma_linked_step(b0, s, p, q);
                assert(listed(cells, q));
                let k = choose|k: int| 0 <= k < cells.len() && #[trigger] point(cells[k]) == q;
                assert(v2[square_index(b0, point(cells[k]))]);
            }
        }
    }
    assert forall|c: (int, int)|
        #![trigger b2.at(c.0, c.1)]
        b0.spec_in_bounds(c.0, c.1) implies b2.at(c.0, c.1) == if gray_at(b0, c) && v2[square_index(
            b0,
            c,
        )] {
            auto_colored_at(b0, c.0, c.1)
        } else {
            b0.at(c.0, c.1)
        } by {
        lemma_grid_index_bounds(w, h, c.0, c.1);
        assert(b1.at(c.0, c.1) == b1.at(c.0, c.1));
        if listed(cells, c) {
            let j = choose|j: int| 0 <= j < cells.len() && #[trigger] point(cells[j]) == c;
            assert(gray_linked(b0, s, c));
            lemma_linked_gray(b0, s, c);
            assert(v2[square_index(b0, point(cells[j]))]);
            lemma_region_unmarked(b0, v1, s, c);
            // The region of `c` is the region of `s`.
            lemma_linked_symmetric(b0, s, c);
            assert forall|jj: int| 0 <= jj < cells.len() implies #[trigger] gray_linked(b0, c, point(cells[jj])) by {
                assert(gray_linked(b0, s, point(cells[jj])));
                lemma_linked_transitive(b0, c, s, point(cells[jj]));
            }
            assert forall|q: (int, int)| #[trigger] gray_linked(b0, c, q) implies listed(cells, q) by {
                lemma_linked_transitive(b0, s, c, q);
            }
            assert(lists_region(b0, c, cells));
            let chosen = choose|cs: Seq<(usize, usize)>| lists_region(b0, c, cs);
            lemma_listings_agree(b0, c, chosen, cells);
            assert(region_piece(b0, c) == piece);
            assert(b1.at(c.0, c.1) == b0.at(c.0, c.1));
        } else {
            if gray_at(b0, c) && v2[square_index(b0, c)] {
                assert(v1[square_index(b0, c)]);
            }
        }
    }
}

} // verus!
