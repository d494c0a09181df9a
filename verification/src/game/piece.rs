use vstd::prelude::*;

verus! {

pub const MAX_BOARD_WIDTH: usize = 32;
pub const MAX_VISIBLE_HEIGHT: usize = 28;
pub const DEFAULT_BOARD_WIDTH: usize = 10;
pub const DEFAULT_VISIBLE_HEIGHT: usize = 20;
pub const DEFAULT_HIDDEN_ROWS: usize = 4;

/// The seven standard tetrominoes plus the single-cell `Mono` block.
#[derive(Debug, Clone, Copy, PartialEq, Eq, Structural)]
pub enum Tetromino {
    I,
    J,
    S,
    O,
    Z,
    L,
    T,
    Mono,
}

/// The four orientations of a piece, in counter-clockwise order.
#[derive(Debug, Clone, Copy, PartialEq, Eq, Structural)]
pub enum Rotation {
    Spawn,
    Left,
    Reverse,
    Right,
}

/// A rotation request: none, a quarter turn either way, or a half turn.
#[derive(Debug, Clone, Copy, PartialEq, Eq, Structural)]
pub enum RotationCommand {
    NoTurn,
    Ccw,
    Flip,
    Cw,
}

/// The contents of one board square.
#[derive(Debug, Clone, Copy, PartialEq, Eq, Structural)]
pub enum Cell {
    Empty,
    I,
    J,
    S,
    O,
    Z,
    L,
    T,
    Gray,
    GhostBlock,
}

/// The falling piece: its kind, orientation and the board position of the
/// top-left corner of its 4x4 shape grid.
#[derive(Debug, Clone, Copy, PartialEq, Eq, Structural)]
pub struct PieceState {
    pub kind: Tetromino,
    pub rotation: Rotation,
    pub x: i32,
    pub y: i32,
}

/// The seven standard pieces, in the order bags are built from.
pub open spec fn all_pieces_seq() -> Seq<Tetromino> {
    seq![
        Tetromino::I,
        Tetromino::J,
        Tetromino::S,
        Tetromino::O,
        Tetromino::Z,
        Tetromino::L,
        Tetromino::T,
    ]
}

/// The seven standard pieces as a vector, in bag order.
pub fn all_pieces() -> (r: Vec<Tetromino>)
    ensures
        r@ == all_pieces_seq(),
{
    vec![
        Tetromino::I,
        Tetromino::J,
        Tetromino::S,
        Tetromino::O,
        Tetromino::Z,
        Tetromino::L,
        Tetromino::T,
    ]
}

/// Rotation index: Spawn 0, Left 1, Reverse 2, Right 3.
pub open spec fn rotation_index(r: Rotation) -> int {
    match r {
        Rotation::Spawn => 0,
        Rotation::Left => 1,
        Rotation::Reverse => 2,
        Rotation::Right => 3,
    }
}

/// Command index: None 0, Ccw 1, Flip 2, Cw 3.
pub open spec fn command_index(c: RotationCommand) -> int {
    match c {
        RotationCommand::NoTurn => 0,
        RotationCommand::Ccw => 1,
        RotationCommand::Flip => 2,
        RotationCommand::Cw => 3,
    }
}

/// The rotation with the given index modulo four.
pub open spec fn rotation_from_index(i: int) -> Rotation {
    let v = i % 4;
    if v == 0 {
        Rotation::Spawn
    } else if v == 1 {
        Rotation::Left
    } else if v == 2 {
        Rotation::Reverse
    } else {
        Rotation::Right
    }
}

/// Whether the 4x4 shape of `kind` in orientation `rotation` covers the
/// offset `(x, y)` (column `x`, row `y`, both counted from the piece origin).
pub open spec fn shape_at(kind: Tetromino, rotation: Rotation, x: int, y: int) -> bool {
    match kind {
        Tetromino::I => match rotation {
            Rotation::Spawn => (x == 0 && y == 1) || (x == 1 && y == 1) || (x == 2 && y == 1) || (x == 3 && y == 1),
            Rotation::Left => (x == 1 && y == 0) || (x == 1 && y == 1) || (x == 1 && y == 2) || (x == 1 && y == 3),
            Rotation::Reverse => (x == 0 && y == 2) || (x == 1 && y == 2) || (x == 2 && y == 2) || (x == 3 && y == 2),
            Rotation::Right => (x == 2 && y == 0) || (x == 2 && y == 1) || (x == 2 && y == 2) || (x == 2 && y == 3),
        },
        Tetromino::J => match rotation {
            Rotation::Spawn => (x == 0 && y == 0) || (x == 0 && y == 1) || (x == 1 && y == 1) || (x == 2 && y == 1),
            Rotation::Left => (x == 0 && y == 2) || (x == 1 && y == 0) || (x == 1 && y == 1) || (x == 1 && y == 2),
            Rotation::Reverse => (x == 0 && y == 1) || (x == 1 && y == 1) || (x == 2 && y == 1) || (x == 2 && y == 2),
            Rotation::Right => (x == 1 && y == 0) || (x == 1 && y == 1) || (x == 1 && y == 2) || (x == 2 && y == 0),
        },
        Tetromino::S => match rotation {
            Rotation::Spawn => (x == 0 && y == 1) || (x == 1 && y == 0) || (x == 1 && y == 1) || (x == 2 && y == 0),
            Rotation::Left => (x == 0 && y == 0) || (x == 0 && y == 1) || (x == 1 && y == 1) || (x == 1 && y == 2),
            Rotation::Reverse => (x == 0 && y == 2) || (x == 1 && y == 1) || (x == 1 && y == 2) || (x == 2 && y == 1),
            Rotation::Right => (x == 1 && y == 0) || (x == 1 && y == 1) || (x == 2 && y == 1) || (x == 2 && y == 2),
        },
        Tetromino::O => match rotation {
            Rotation::Spawn => (x == 1 && y == 0) || (x == 1 && y == 1) || (x == 2 && y == 0) || (x == 2 && y == 1),
            Rotation::Left => (x == 1 && y == 0) || (x == 1 && y == 1) || (x == 2 && y == 0) || (x == 2 && y == 1),
            Rotation::Reverse => (x == 1 && y == 0) || (x == 1 && y == 1) || (x == 2 && y == 0) || (x == 2 && y == 1),
            Rotation::Right => (x == 1 && y == 0) || (x == 1 && y == 1) || (x == 2 && y == 0) || (x == 2 && y == 1),
        },
        Tetromino::Z => match rotation {
            Rotation::Spawn => (x == 0 && y == 0) || (x == 1 && y == 0) || (x == 1 && y == 1) || (x == 2 && y == 1),
            Rotation::Left => (x == 0 && y == 1) || (x == 0 && y == 2) || (x == 1 && y == 0) || (x == 1 && y == 1),
            Rotation::Reverse => (x == 0 && y == 1) || (x == 1 && y == 1) || (x == 1 && y == 2) || (x == 2 && y == 2),
            Rotation::Right => (x == 1 && y == 1) || (x == 1 && y == 2) || (x == 2 && y == 0) || (x == 2 && y == 1),
        },
        Tetromino::L => match rotation {
            Rotation::Spawn => (x == 0 && y == 1) || (x == 1 && y == 1) || (x == 2 && y == 0) || (x == 2 && y == 1),
            Rotation::Left => (x == 0 && y == 0) || (x == 1 && y == 0) || (x == 1 && y == 1) || (x == 1 && y == 2),
            Rotation::Reverse => (x == 0 && y == 1) || (x == 0 && y == 2) || (x == 1 && y == 1) || (x == 2 && y == 1),
            Rotation::Right => (x == 1 && y == 0) || (x == 1 && y == 1) || (x == 1 && y == 2) || (x == 2 && y == 2),
        },
        Tetromino::T => match rotation {
            Rotation::Spawn => (x == 0 && y == 1) || (x == 1 && y == 0) || (x == 1 && y == 1) || (x == 2 && y == 1),
            Rotation::Left => (x == 0 && y == 1) || (x == 1 && y == 0) || (x == 1 && y == 1) || (x == 1 && y == 2),
            Rotation::Reverse => (x == 0 && y == 1) || (x == 1 && y == 1) || (x == 1 && y == 2) || (x == 2 && y == 1),
            Rotation::Right => (x == 1 && y == 0) || (x == 1 && y == 1) || (x == 1 && y == 2) || (x == 2 && y == 1),
        },
        Tetromino::Mono => match rotation {
            Rotation::Spawn => (x == 1 && y == 1),
            Rotation::Left => (x == 1 && y == 1),
            Rotation::Reverse => (x == 1 && y == 1),
            Rotation::Right => (x == 1 && y == 1),
        },
    }
}

/// The 4x4 occupancy grid of `kind` in orientation `rotation`, indexed
/// `[x][y]`.
pub fn piece_shape(kind: Tetromino, rotation: Rotation) -> (shape: [[bool; 4]; 4])
    ensures
        forall|x: int, y: int|
            0 <= x < 4 && 0 <= y < 4 ==> #[trigger] shape@[x]@[y] == shape_at(kind, rotation, x, y),
{
    let t = true;
    let f = false;
    match kind {
        Tetromino::I => match rotation {
            Rotation::Spawn => [[f, t, f, f], [f, t, f, f], [f, t, f, f], [f, t, f, f]],
            Rotation::Left => [[f, f, f, f], [t, t, t, t], [f, f, f, f], [f, f, f, f]],
            Rotation::Reverse => [[f, f, t, f], [f, f, t, f], [f, f, t, f], [f, f, t, f]],
            Rotation::Right => [[f, f, f, f], [f, f, f, f], [t, t, t, t], [f, f, f, f]],
        },
        Tetromino::J => match rotation {
            Rotation::Spawn => [[t, t, f, f], [f, t, f, f], [f, t, f, f], [f, f, f, f]],
            Rotation::Left => [[f, f, t, f], [t, t, t, f], [f, f, f, f], [f, f, f, f]],
            Rotation::Reverse => [[f, t, f, f], [f, t, f, f], [f, t, t, f], [f, f, f, f]],
            Rotation::Right => [[f, f, f, f], [t, t, t, f], [t, f, f, f], [f, f, f, f]],
        },
        Tetromino::S => match rotation {
            Rotation::Spawn => [[f, t, f, f], [t, t, f, f], [t, f, f, f], [f, f, f, f]],
            Rotation::Left => [[t, t, f, f], [f, t, t, f], [f, f, f, f], [f, f, f, f]],
            Rotation::Reverse => [[f, f, t, f], [f, t, t, f], [f, t, f, f], [f, f, f, f]],
            Rotation::Right => [[f, f, f, f], [t, t, f, f], [f, t, t, f], [f, f, f, f]],
        },
        Tetromino::O => match rotation {
            Rotation::Spawn => [[f, f, f, f], [t, t, f, f], [t, t, f, f], [f, f, f, f]],
            Rotation::Left => [[f, f, f, f], [t, t, f, f], [t, t, f, f], [f, f, f, f]],
            Rotation::Reverse => [[f, f, f, f], [t, t, f, f], [t, t, f, f], [f, f, f, f]],
            Rotation::Right => [[f, f, f, f], [t, t, f, f], [t, t, f, f], [f, f, f, f]],
        },
        Tetromino::Z => match rotation {
            Rotation::Spawn => [[t, f, f, f], [t, t, f, f], [f, t, f, f], [f, f, f, f]],
            Rotation::Left => [[f, t, t, f], [t, t, f, f], [f, f, f, f], [f, f, f, f]],
            Rotation::Reverse => [[f, t, f, f], [f, t, t, f], [f, f, t, f], [f, f, f, f]],
            Rotation::Right => [[f, f, f, f], [f, t, t, f], [t, t, f, f], [f, f, f, f]],
        },
        Tetromino::L => match rotation {
            Rotation::Spawn => [[f, t, f, f], [f, t, f, f], [t, t, f, f], [f, f, f, f]],
            Rotation::Left => [[t, f, f, f], [t, t, t, f], [f, f, f, f], [f, f, f, f]],
            Rotation::Reverse => [[f, t, t, f], [f, t, f, f], [f, t, f, f], [f, f, f, f]],
            Rotation::Right => [[f, f, f, f], [t, t, t, f], [f, f, t, f], [f, f, f, f]],
        },
        Tetromino::T => match rotation {
            Rotation::Spawn => [[f, t, f, f], [t, t, f, f], [f, t, f, f], [f, f, f, f]],
            Rotation::Left => [[f, t, f, f], [t, t, t, f], [f, f, f, f], [f, f, f, f]],
            Rotation::Reverse => [[f, t, f, f], [f, t, t, f], [f, t, f, f], [f, f, f, f]],
            Rotation::Right => [[f, f, f, f], [t, t, t, f], [f, t, f, f], [f, f, f, f]],
        },
        Tetromino::Mono => match rotation {
            Rotation::Spawn => [[f, f, f, f], [f, t, f, f], [f, f, f, f], [f, f, f, f]],
            Rotation::Left => [[f, f, f, f], [f, t, f, f], [f, f, f, f], [f, f, f, f]],
            Rotation::Reverse => [[f, f, f, f], [f, t, f, f], [f, f, f, f], [f, f, f, f]],
            Rotation::Right => [[f, f, f, f], [f, t, f, f], [f, f, f, f], [f, f, f, f]],
        },
    }
}

pub open spec fn spec_piece_name(kind: Tetromino) -> char {
    match kind {
        Tetromino::I => 'I',
        Tetromino::J => 'J',
        Tetromino::S => 'S',
        Tetromino::O => 'O',
        Tetromino::Z => 'Z',
        Tetromino::L => 'L',
        Tetromino::T => 'T',
        Tetromino::Mono => 'M',
    }
}

/// The letter that names a piece kind (`M` for the single-cell block).
pub fn piece_name(kind: Tetromino) -> (c: char)
    ensures
        c == spec_piece_name(kind),
{
    match kind {
        Tetromino::I => 'I',
        Tetromino::J => 'J',
        Tetromino::S => 'S',
        Tetromino::O => 'O',
        Tetromino::Z => 'Z',
        Tetromino::L => 'L',
        Tetromino::T => 'T',
        Tetromino::Mono => 'M',
    }
}

pub open spec fn spec_piece_from_name(ch: char) -> Option<Tetromino> {
    if ch == 'I' {
        Some(Tetromino::I)
    } else if ch == 'J' {
        Some(Tetromino::J)
    } else if ch == 'S' {
        Some(Tetromino::S)
    } else if ch == 'O' {
        Some(Tetromino::O)
    } else if ch == 'Z' {
        Some(Tetromino::Z)
    } else if ch == 'L' {
        Some(Tetromino::L)
    } else if ch == 'T' {
        Some(Tetromino::T)
    } else if ch == 'M' {
        Some(Tetromino::Mono)
    } else {
        None
    }
}

/// The piece kind named by an upper-case letter, if any.
pub fn piece_from_name(ch: char) -> (r: Option<Tetromino>)
    ensures
        r == spec_piece_from_name(ch),
{
    match ch {
        'I' => Some(Tetromino::I),
        'J' => Some(Tetromino::J),
        'S' => Some(Tetromino::S),
        'O' => Some(Tetromino::O),
        'Z' => Some(Tetromino::Z),
        'L' => Some(Tetromino::L),
        'T' => Some(Tetromino::T),
        'M' => Some(Tetromino::Mono),
        _ => None,
    }
}

pub open spec fn spec_cell_from_piece(kind: Tetromino) -> Cell {
    match kind {
        Tetromino::I => Cell::I,
        Tetromino::J => Cell::J,
        Tetromino::S => Cell::S,
        Tetromino::O => Cell::O,
        Tetromino::Z => Cell::Z,
        Tetromino::L => Cell::L,
        Tetromino::T => Cell::T,
        Tetromino::Mono => Cell::Gray,
    }
}

/// The board cell a locked piece of this kind leaves behind.
pub fn cell_from_piece(kind: Tetromino) -> (c: Cell)
    ensures
        c == spec_cell_from_piece(kind),
{
    match kind {
        Tetromino::I => Cell::I,
        Tetromino::J => Cell::J,
        Tetromino::S => Cell::S,
        Tetromino::O => Cell::O,
        Tetromino::Z => Cell::Z,
        Tetromino::L => Cell::L,
        Tetromino::T => Cell::T,
        Tetromino::Mono => Cell::Gray,
    }
}

pub open spec fn spec_mirrored_piece(piece: Tetromino) -> Tetromino {
    match piece {
        Tetromino::J => Tetromino::L,
        Tetromino::L => Tetromino::J,
        Tetromino::S => Tetromino::Z,
        Tetromino::Z => Tetromino::S,
        other => other,
    }
}

/// Reflects a piece kind across the vertical axis (J and L, S and Z swap).
pub fn mirrored_piece(piece: Tetromino) -> (r: Tetromino)
    ensures
        r == spec_mirrored_piece(piece),
{
    match piece {
        Tetromino::J => Tetromino::L,
        Tetromino::L => Tetromino::J,
        Tetromino::S => Tetromino::Z,
        Tetromino::Z => Tetromino::S,
        other => other,
    }
}

pub open spec fn spec_mirrored_cell(cell: Cell) -> Cell {
    match cell {
        Cell::J => Cell::L,
        Cell::L => Cell::J,
        Cell::S => Cell::Z,
        Cell::Z => Cell::S,
        other => other,
    }
}

/// Reflects a cell colour across the vertical axis (J and L, S and Z swap).
pub fn mirrored_cell(cell: Cell) -> (r: Cell)
    ensures
        r == spec_mirrored_cell(cell),
{
    match cell {
        Cell::J => Cell::L,
        Cell::L => Cell::J,
        Cell::S => Cell::Z,
        Cell::Z => Cell::S,
        other => other,
    }
}

/// Mirroring a piece kind twice gives it back.
pub proof fn lemma_mirrored_piece_involution(piece: Tetromino)
    ensures
        spec_mirrored_piece(spec_mirrored_piece(piece)) == piece,
{
}

/// Mirroring a cell twice gives it back.
pub proof fn lemma_mirrored_cell_involution(cell: Cell)
    ensures
        spec_mirrored_cell(spec_mirrored_cell(cell)) == cell,
{
}

/// Naming a piece and reading the name back gives the same piece.
pub proof fn lemma_piece_name_round_trip(kind: Tetromino)
    ensures
        spec_piece_from_name(spec_piece_name(kind)) == Some(kind),
{
}

/// Mirroring commutes with the cell a piece leaves behind.
pub proof fn lemma_mirror_commutes_with_cell(kind: Tetromino)
    ensures
        spec_cell_from_piece(spec_mirrored_piece(kind)) == spec_mirrored_cell(spec_cell_from_piece(kind)),
{
}

/// Every shape covers some square below its top row.
pub proof fn lemma_shape_has_low_cell(kind: Tetromino, rotation: Rotation)
    ensures
        exists|x: int, y: int| 0 <= x < 4 && 1 <= y < 4 && #[trigger] shape_at(kind, rotation, x, y),
{
    if shape_at(kind, rotation, 1, 1) {
    } else if shape_at(kind, rotation, 1, 2) {
    } else {
        assert(shape_at(kind, rotation, 2, 1));
    }
}

} // verus!
