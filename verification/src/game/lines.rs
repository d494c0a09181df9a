use vstd::prelude::*;

use super::board::shifted_down;
use super::grid::{grid_index, lemma_grid_index_bounds, lemma_grid_index_unique};

verus! {

/// The value at column `x`, row `row` of a row-major grid `w` cells wide.
pub open spec fn cell_at<T>(s: Seq<T>, w: int, x: int, row: int) -> T {
    s[grid_index(w, x, row)]
}

/// How many rows in `lo..hi` are marked.
pub open spec fn count_marked(marked: spec_fn(int) -> bool, lo: int, hi: int) -> int
    decreases hi - lo,
{
    if hi <= lo {
        0
    } else {
        count_marked(marked, lo, hi - 1) + if marked(hi - 1) {
            1int
        } else {
            0int
        }
    }
}

/// The marked rows of `lo..hi`, in increasing order.
pub open spec fn marked_rows(marked: spec_fn(int) -> bool, lo: int, hi: int) -> Seq<int>
    decreases hi - lo,
{
    if hi <= lo {
        Seq::empty()
    } else if marked(hi - 1) {
        marked_rows(marked, lo, hi - 1).push(hi - 1)
    } else {
        marked_rows(marked, lo, hi - 1)
    }
}

/// The grid after the marked rows among `0..y` are removed one at a time,
/// from the top down.
pub open spec fn rows_removed<T>(
    cells: Seq<T>,
    w: int,
    y: int,
    marked: spec_fn(int) -> bool,
    empty: T,
) -> Seq<T>
    decreases y,
{
    if y <= 0 {
        cells
    } else {
        let prev = rows_removed(cells, w, y - 1, marked, empty);
        if marked(y - 1) {
            shifted_down(prev, w, y - 1, empty)
        } else {
            prev
        }
    }
}

/// Where an unmarked row `r` ends up once the marked rows in `r + 1..hi`
/// below it are removed: it moves down by their number.
pub open spec fn landing_row(marked: spec_fn(int) -> bool, r: int, hi: int) -> int {
    r + count_marked(marked, r + 1, hi)
}

/// `new` is `old` with the marked rows among the `h` rows removed: every
/// unmarked row keeps its contents and moves down by the number of marked
/// rows below it, and as many rows at the top as were removed hold `empty`.
pub open spec fn rows_compacted<T>(
    old: Seq<T>,
    new: Seq<T>,
    w: int,
    h: int,
    marked: spec_fn(int) -> bool,
    empty: T,
) -> bool {
    &&& new.len() == old.len()
    &&& forall|r: int, x: int|
        0 <= r < h && !marked(r) && 0 <= x < w ==> #[trigger] cell_at(
            new,
            w,
            x,
            landing_row(marked, r, h),
        ) == cell_at(old, w, x, r)
    &&& forall|r: int, x: int|
        0 <= r < count_marked(marked, 0, h) && 0 <= x < w ==> #[trigger] cell_at(new, w, x, r)
            == empty
}

/// The state reached once rows `0..y` have been examined.
pub open spec fn compaction_progress<T>(
    old: Seq<T>,
    cur: Seq<T>,
    w: int,
    y: int,
    marked: spec_fn(int) -> bool,
    empty: T,
) -> bool {
    &&& cur.len() == old.len()
    &&& forall|i: int| grid_index(w, 0, y) <= i < cur.len() ==> #[trigger] cur[i] == old[i]
    &&& forall|r: int, x: int|
        0 <= r < y && !marked(r) && 0 <= x < w ==> #[trigger] cell_at(
            cur,
            w,
            x,
            landing_row(marked, r, y),
        ) == cell_at(old, w, x, r)
    &&& forall|r: int, x: int|
        0 <= r < count_marked(marked, 0, y) && 0 <= x < w ==> #[trigger] cell_at(cur, w, x, r)
            == empty
}

/// At most `hi - lo` rows of `lo..hi` are marked.
pub proof fn lemma_count_bounds(marked: spec_fn(int) -> bool, lo: int, hi: int)
    ensures
        0 <= count_marked(marked, lo, hi),
        lo <= hi ==> count_marked(marked, lo, hi) <= hi - lo,
    decreases hi - lo,
{
    if hi > lo {
        lemma_count_bounds(marked, lo, hi - 1);
    }
}

/// Counting over `lo..hi` splits at any `mid` in between.
pub proof fn lemma_count_split(marked: spec_fn(int) -> bool, lo: int, mid: int, hi: int)
    requires
        lo <= mid <= hi,
    ensures
        count_marked(marked, lo, hi) == count_marked(marked, lo, mid) + count_marked(
            marked,
            mid,
            hi,
        ),
    decreases hi - mid,
{
    if hi > mid {
        lemma_count_split(marked, lo, mid, hi - 1);
    }
}

/// Nothing examined yet.
pub proof fn lemma_progress_start<T>(old: Seq<T>, w: int, marked: spec_fn(int) -> bool, empty: T)
    ensures
        compaction_progress(old, old, w, 0, marked, empty),
{
}

/// Examining an unmarked row changes nothing.
pub proof fn lemma_progress_keep<T>(
    old: Seq<T>,
    cur: Seq<T>,
    w: int,
    h: int,
    y: int,
    marked: spec_fn(int) -> bool,
    empty: T,
)
    requires
        0 <= y < h,
        0 < w,
        old.len() == w * h,
        !marked(y),
        compaction_progress(old, cur, w, y, marked, empty),
    ensures
        compaction_progress(old, cur, w, y + 1, marked, empty),
{
    assert forall|r: int, x: int|
        0 <= r < y + 1 && !marked(r) && 0 <= x < w implies #[trigger] cell_at(
        cur,
        w,
        x,
        landing_row(marked, r, y + 1),
    ) == cell_at(old, w, x, r) by {
        if r < y {
            assert(landing_row(marked, r, y + 1) == landing_row(marked, r, y));
        } else {
            lemma_grid_index_bounds(w, h, x, y);
            assert(landing_row(marked, r, y + 1) == y);
        }
    }
    assert forall|i: int| grid_index(w, 0, y + 1) <= i < cur.len() implies #[trigger] cur[i]
        == old[i] by {
        assert(grid_index(w, 0, y + 1) == grid_index(w, 0, y) + w) by (nonlinear_arith);
    }
}

/// Removing a marked row with a shift keeps the progress invariant.
pub proof fn lemma_progress_remove<T>(
    old: Seq<T>,
    cur: Seq<T>,
    w: int,
    h: int,
    y: int,
    marked: spec_fn(int) -> bool,
    empty: T,
)
    requires
        0 <= y < h,
        0 < w,
        old.len() == w * h,
        marked(y),
        compaction_progress(old, cur, w, y, marked, empty),
    ensures
        compaction_progress(old, shifted_down(cur, w, y, empty), w, y + 1, marked, empty),
{
    let new = shifted_down(cur, w, y, empty);
    lemma_count_bounds(marked, 0, y);
    assert((y + 1) * w == y * w + w) by (nonlinear_arith);
    assert forall|i: int| grid_index(w, 0, y + 1) <= i < new.len() implies #[trigger] new[i]
        == old[i] by {
        assert(grid_index(w, 0, y + 1) == grid_index(w, 0, y) + w) by (nonlinear_arith);
    }
    assert forall|r: int, x: int|
        0 <= r < count_marked(marked, 0, y + 1) && 0 <= x < w implies #[trigger] cell_at(
        new,
        w,
        x,
        r,
    ) == empty by {
        lemma_grid_index_bounds(w, h, x, r);
        if r > 0 {
            assert(grid_index(w, x, r) - w == grid_index(w, x, r - 1)) by (nonlinear_arith);
            lemma_grid_index_bounds(w, y + 1, x, r);
            assert(grid_index(w, x, r) < (y + 1) * w) by (nonlinear_arith)
                requires
                    0 <= x < w,
                    r <= y,
            ;
            assert(cell_at(cur, w, x, r - 1) == empty);
        } else {
            assert(grid_index(w, x, r) == x);
        }
    }
    assert forall|r: int, x: int|
        0 <= r < y + 1 && !marked(r) && 0 <= x < w implies #[trigger] cell_at(
        new,
        w,
        x,
        landing_row(marked, r, y + 1),
    ) == cell_at(old, w, x, r) by {
        assert(r < y);
        lemma_count_bounds(marked, r + 1, y);
        let t = landing_row(marked, r, y + 1);
        assert(t == landing_row(marked, r, y) + 1);
        assert(1 <= t <= y);
        assert(grid_index(w, x, t) - w == grid_index(w, x, t - 1)) by (nonlinear_arith);
        assert(w <= grid_index(w, x, t) < (y + 1) * w) by (nonlinear_arith)
            requires
                0 <= x < w,
                1 <= t <= y,
        ;
        lemma_grid_index_bounds(w, h, x, t);
        assert(t - 1 == landing_row(marked, r, y));
        assert(cell_at(cur, w, x, landing_row(marked, r, y)) == cell_at(old, w, x, r));
        assert(new[grid_index(w, x, t)] == cur[grid_index(w, x, t) - w]);
        assert(cell_at(new, w, x, t) == cell_at(cur, w, x, t - 1));
    }
}

/// Removing the marked rows of `0..y` one at a time keeps the progress
/// invariant.
pub proof fn lemma_rows_removed_progress<T>(
    old: Seq<T>,
    w: int,
    h: int,
    y: int,
    marked: spec_fn(int) -> bool,
    empty: T,
)
    requires
        0 <= y <= h,
        0 < w,
        old.len() == w * h,
    ensures
        compaction_progress(old, rows_removed(old, w, y, marked, empty), w, y, marked, empty),
    decreases y,
{
    if y == 0 {
        lemma_progress_start(old, w, marked, empty);
    } else {
        lemma_rows_removed_progress(old, w, h, y - 1, marked, empty);
        let prev = rows_removed(old, w, y - 1, marked, empty);
        if marked(y - 1) {
            lemma_progress_remove(old, prev, w, h, y - 1, marked, empty);
        } else {
            lemma_progress_keep(old, prev, w, h, y - 1, marked, empty);
        }
    }
}

/// Removing the marked rows one at a time removes them all at once: every
/// unmarked row lands below the rows that remain above it, and the top rows
/// are emptied.
pub proof fn lemma_rows_removed_compacted<T>(
    old: Seq<T>,
    w: int,
    h: int,
    marked: spec_fn(int) -> bool,
    empty: T,
)
    requires
        0 <= h,
        0 < w,
        old.len() == w * h,
    ensures
        rows_compacted(old, rows_removed(old, w, h, marked, empty), w, h, marked, empty),
{
    lemma_rows_removed_progress(old, w, h, h, marked, empty);
}

/// One entry per marked row.
pub proof fn lemma_marked_rows_len(marked: spec_fn(int) -> bool, lo: int, hi: int)
    ensures
        marked_rows(marked, lo, hi).len() == count_marked(marked, lo, hi),
    decreases hi - lo,
{
    if hi > lo {
        lemma_marked_rows_len(marked, lo, hi - 1);
    }
}

/// Two row predicates that agree on `lo..hi` mark as many rows there.
pub proof fn lemma_count_marked_agree(
    m1: spec_fn(int) -> bool,
    m2: spec_fn(int) -> bool,
    lo: int,
    hi: int,
)
    requires
        forall|r: int| lo <= r < hi ==> #[trigger] m1(r) == m2(r),
    ensures
        count_marked(m1, lo, hi) == count_marked(m2, lo, hi),
    decreases hi - lo,
{
    if hi > lo {
        lemma_count_marked_agree(m1, m2, lo, hi - 1);
    }
}

} // verus!
