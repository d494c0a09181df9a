pub mod overlay;
pub mod style;
pub mod texture_atlas;

use vstd::prelude::*;

use crate::game::piece::Cell;

verus! {

/// The tile of the texture strip that draws `cell`.
pub open spec fn spec_cell_texture_index(cell: Cell) -> int {
    match cell {
        Cell::Empty => 0,
        Cell::I => 1,
        Cell::J => 2,
        Cell::S => 3,
        Cell::O => 4,
        Cell::Z => 5,
        Cell::L => 6,
        Cell::T => 7,
        Cell::Gray => 8,
        Cell::GhostBlock => 9,
    }
}

/// The tile of the texture strip that draws `cell`.
pub fn cell_texture_index(cell: Cell) -> (r: usize)
    ensures
        r == spec_cell_texture_index(cell),
{
    match cell {
        Cell::Empty => 0,
        Cell::I => 1,
        Cell::J => 2,
        Cell::S => 3,
        Cell::O => 4,
        Cell::Z => 5,
        Cell::L => 6,
        Cell::T => 7,
        Cell::Gray => 8,
        Cell::GhostBlock => 9,
    }
}

/// Every cell has its own tile, one of the ten.
pub proof fn law_texture_index_one_to_one(a: Cell, b: Cell)
    ensures
        0 <= spec_cell_texture_index(a) < 10,
        spec_cell_texture_index(a) == spec_cell_texture_index(b) ==> a == b,
{
}

} // verus!
