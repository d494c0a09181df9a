use vstd::prelude::*;

use super::board::Board;
use super::grid::grid_index;
use super::piece::Cell;

verus! {

/// A board square as a pair of integers, column first.
pub open spec fn point(c: (usize, usize)) -> (int, int) {
    (c.0 as int, c.1 as int)
}

/// Square `p` lies on the board and holds a gray cell.
pub open spec fn gray_at(b: Board, p: (int, int)) -> bool {
    b.spec_in_bounds(p.0, p.1) && b.at(p.0, p.1) == Cell::Gray
}

/// Squares `p` and `q` share an edge.
pub open spec fn adjacent(p: (int, int), q: (int, int)) -> bool {
    ||| p.0 == q.0 && (p.1 == q.1 + 1 || q.1 == p.1 + 1)
    ||| p.1 == q.1 && (p.0 == q.0 + 1 || q.0 == p.0 + 1)
}

/// A walk through gray squares, each step to an edge neighbour.
pub open spec fn gray_path(b: Board, path: Seq<(int, int)>) -> bool {
    &&& path.len() >= 1
    &&& forall|i: int| 0 <= i < path.len() ==> #[trigger] gray_at(b, path[i])
    &&& forall|i: int| 0 <= i < path.len() - 1 ==> #[trigger] adjacent(path[i], path[i + 1])
}

/// Gray squares `p` and `q` belong to one gray region: a gray walk leads
/// from `p` to `q`.
pub open spec fn gray_linked(b: Board, p: (int, int), q: (int, int)) -> bool {
    exists|path: Seq<(int, int)>| #[trigger] gray_path(b, path) && path[0] == p && path.last() == q
}

/// The storage index of square `p`.
pub open spec fn square_index(b: Board, p: (int, int)) -> int {
    grid_index(b.width as int, p.0, p.1)
}

/// The marks never separate two touching gray squares: a marked gray square
/// has only marked gray neighbours.
pub open spec fn marks_closed(b: Board, marks: Seq<bool>) -> bool {
    forall|p: (int, int), q: (int, int)|
        #![trigger adjacent(p, q), marks[square_index(b, p)], marks[square_index(b, q)]]
        gray_at(b, p) && gray_at(b, q) && adjacent(p, q) && marks[square_index(b, p)]
            ==> marks[square_index(b, q)]
}

/// Square `p` is one of `cells`.
pub open spec fn listed(cells: Seq<(usize, usize)>, p: (int, int)) -> bool {
    exists|j: int| 0 <= j < cells.len() && #[trigger] point(cells[j]) == p
}

/// `cells` lists the gray region of `p`, every square once.
pub open spec fn lists_region(b: Board, p: (int, int), cells: Seq<(usize, usize)>) -> bool {
    &&& cells.no_duplicates()
    &&& forall|j: int| 0 <= j < cells.len() ==> #[trigger] gray_linked(b, p, point(cells[j]))
    &&& forall|q: (int, int)| #[trigger] gray_linked(b, p, q) ==> listed(cells, q)
}

/// How many entries are unmarked.
pub open spec fn unmarked(marks: Seq<bool>) -> nat
    decreases marks.len(),
{
    if marks.len() == 0 {
        0
    } else {
        unmarked(marks.drop_last()) + if marks.last() {
            0nat
        } else {
            1nat
        }
    }
}

/// Marking an unmarked entry leaves one fewer unmarked.
pub proof fn lemma_mark_one(marks: Seq<bool>, i: int)
    requires
        0 <= i < marks.len(),
        !marks[i],
    ensures
        unmarked(marks.update(i, true)) + 1 == unmarked(marks),
    decreases marks.len(),
{
    let m2 = marks.update(i, true);
    if i == marks.len() - 1 {
        assert(m2.drop_last() =~= marks.drop_last());
    } else {
        assert(m2.drop_last() =~= marks.drop_last().update(i, true));
        lemma_mark_one(marks.drop_last(), i);
    }
}

/// A gray square is in its own region.
pub proof fn lemma_linked_self(b: Board, p: (int, int))
    requires
        gray_at(b, p),
    ensures
        gray_linked(b, p, p),
{
    let path = seq![p];
    assert(gray_path(b, path));
}

/// A gray neighbour of a square in the region is in the region.
pub proof fn lemma_linked_step(b: Board, p: (int, int), q: (int, int), r: (int, int))
    requires
        gray_linked(b, p, q),
        gray_at(b, r),
        adjacent(q, r),
    ensures
        gray_linked(b, p, r),
{
    let path = choose|path: Seq<(int, int)>| #[trigger] gray_path(b, path) && path[0] == p && path.last() == q;
    let longer = path.push(r);
    assert forall|i: int| 0 <= i < longer.len() implies #[trigger] gray_at(b, longer[i]) by {
        if i < path.len() {
            assert(longer[i] == path[i]);
        }
    }
    assert forall|i: int| 0 <= i < longer.len() - 1 implies #[trigger] adjacent(longer[i], longer[i + 1]) by {
        if i < path.len() - 1 {
            assert(longer[i] == path[i] && longer[i + 1] == path[i + 1]);
        }
    }
    assert(gray_path(b, longer));
}

/// Closed marks reach back along a gray walk: if its last square is marked,
/// so is its first.
pub proof fn lemma_marks_reach_back(b: Board, marks: Seq<bool>, path: Seq<(int, int)>)
    requires
        marks_closed(b, marks),
        gray_path(b, path),
        marks[square_index(b, path.last())],
    ensures
        marks[square_index(b, path[0])],
    decreases path.len(),
{
    if path.len() > 1 {
        let n = path.len() - 1;
        let shorter = path.drop_last();
        assert(gray_at(b, path[n - 1]) && gray_at(b, path[n]));
        let k = n - 1;
        assert(adjacent(path[k], path[k + 1]));
        assert(path[k + 1] == path[n]);
        assert(adjacent(path[n], path[n - 1]));
        assert(gray_path(b, shorter)) by {
            assert forall|i: int| 0 <= i < shorter.len() implies #[trigger] gray_at(b, shorter[i]) by {
                assert(shorter[i] == path[i]);
            }
            assert forall|i: int| 0 <= i < shorter.len() - 1 implies #[trigger] adjacent(
                shorter[i],
                shorter[i + 1],
            ) by {
                assert(shorter[i] == path[i] && shorter[i + 1] == path[i + 1]);
            }
        }
        lemma_marks_reach_back(b, marks, shorter);
    }
}

/// A set of squares that holds the first square of a gray walk and every
/// gray neighbour of its members holds the whole walk.
pub proof fn lemma_closed_set_holds_path(
    b: Board,
    cells: Seq<(usize, usize)>,
    path: Seq<(int, int)>,
)
    requires
        gray_path(b, path),
        listed(cells, path[0]),
        forall|j: int, q: (int, int)|
            0 <= j < cells.len() && gray_at(b, q) && #[trigger] adjacent(point(cells[j]), q)
                ==> listed(cells, q),
    ensures
        listed(cells, path.last()),
    decreases path.len(),
{
    if path.len() > 1 {
        let n = path.len() - 1;
        let shorter = path.drop_last();
        assert(gray_path(b, shorter)) by {
            assert forall|i: int| 0 <= i < shorter.len() implies #[trigger] gray_at(b, shorter[i]) by {
                assert(shorter[i] == path[i]);
            }
            assert forall|i: int| 0 <= i < shorter.len() - 1 implies #[trigger] adjacent(
                shorter[i],
                shorter[i + 1],
            ) by {
                assert(shorter[i] == path[i] && shorter[i + 1] == path[i + 1]);
            }
        }
        lemma_closed_set_holds_path(b, cells, shorter);
        assert(listed(cells, path[n - 1]));
        let j = choose|j: int| 0 <= j < cells.len() && #[trigger] point(cells[j]) == path[n - 1];
        let k = n - 1;
        assert(adjacent(path[k], path[k + 1]));
        assert(path[k + 1] == path[n]);
        assert(gray_at(b, path[n]));
        assert(adjacent(point(cells[j]), path[n]));
    }
}

/// A gray walk read backwards is a gray walk.
pub proof fn lemma_linked_symmetric(b: Board, p: (int, int), q: (int, int))
    requires
        gray_linked(b, p, q),
    ensures
        gray_linked(b, q, p),
{
    let path = choose|path: Seq<(int, int)>| #[trigger] gray_path(b, path) && path[0] == p && path.last() == q;
    let back = path.reverse();
    assert forall|i: int| 0 <= i < back.len() implies #[trigger] gray_at(b, back[i]) by {
        assert(back[i] == path[path.len() - 1 - i]);
    }
    assert forall|i: int| 0 <= i < back.len() - 1 implies #[trigger] adjacent(back[i], back[i + 1]) by {
        let k = path.len() - 2 - i;
        assert(adjacent(path[k], path[k + 1]));
        assert(back[i] == path[k + 1] && back[i + 1] == path[k]);
    }
    assert(gray_path(b, back));
}

/// Two gray walks that meet join into one.
pub proof fn lemma_linked_transitive(b: Board, p: (int, int), q: (int, int), r: (int, int))
    requires
        gray_linked(b, p, q),
        gray_linked(b, q, r),
    ensures
        gray_linked(b, p, r),
{
    let p1 = choose|path: Seq<(int, int)>| #[trigger] gray_path(b, path) && path[0] == p && path.last() == q;
    let p2 = choose|path: Seq<(int, int)>| #[trigger] gray_path(b, path) && path[0] == q && path.last() == r;
    let joined = p1 + p2.drop_first();
    assert forall|i: int| 0 <= i < joined.len() implies #[trigger] gray_at(b, joined[i]) by {
        if i < p1.len() {
            assert(joined[i] == p1[i]);
        } else {
            assert(joined[i] == p2[i - p1.len() + 1]);
        }
    }
    assert forall|i: int| 0 <= i < joined.len() - 1 implies #[trigger] adjacent(joined[i], joined[i + 1]) by {
        if i < p1.len() - 1 {
            assert(joined[i] == p1[i] && joined[i + 1] == p1[i + 1]);
        } else if i == p1.len() - 1 {
            assert(joined[i] == p1.last());
            assert(joined[i + 1] == p2[1]);
            let z: int = 0;
            assert(adjacent(p2[z], p2[z + 1]));
        } else {
            let k = i - p1.len() + 1;
            assert(joined[i] == p2[k] && joined[i + 1] == p2[k + 1]);
        }
    }
    if p2.len() == 1 {
        assert(joined =~= p1);
    }
    assert(gray_path(b, joined));
}

/// A gray walk stays a gray walk on a board where every square gray in
/// the first is gray too.
pub proof fn lemma_linked_more_gray(b1: Board, b2: Board, p: (int, int), q: (int, int))
    requires
        gray_linked(b1, p, q),
        forall|c: (int, int)| #[trigger] gray_at(b1, c) ==> gray_at(b2, c),
    ensures
        gray_linked(b2, p, q),
{
    let path = choose|path: Seq<(int, int)>| #[trigger] gray_path(b1, path) && path[0] == p && path.last() == q;
    assert forall|i: int| 0 <= i < path.len() implies #[trigger] gray_at(b2, path[i]) by {
        assert(gray_at(b1, path[i]));
    }
    assert(gray_path(b2, path));
}

/// With closed marks, the region of an unmarked gray square is unmarked.
pub proof fn lemma_region_unmarked(b: Board, marks: Seq<bool>, p: (int, int), q: (int, int))
    requires
        marks_closed(b, marks),
        !marks[square_index(b, p)],
        gray_linked(b, p, q),
    ensures
        !marks[square_index(b, q)],
{
    let path = choose|path: Seq<(int, int)>| #[trigger] gray_path(b, path) && path[0] == p && path.last() == q;
    if marks[square_index(b, q)] {
        lemma_marks_reach_back(b, marks, path);
    }
}

/// The squares of a region are gray.
pub proof fn lemma_linked_gray(b: Board, p: (int, int), q: (int, int))
    requires
        gray_linked(b, p, q),
    ensures
        gray_at(b, p),
        gray_at(b, q),
{
    let path = choose|path: Seq<(int, int)>| #[trigger] gray_path(b, path) && path[0] == p && path.last() == q;
    assert(gray_at(b, path[0]));
    assert(gray_at(b, path[path.len() - 1]));
}

} // verus!
