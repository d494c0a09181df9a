use fivetris::game::piece::{
    Cell, Rotation, Tetromino, cell_from_piece, mirrored_cell, mirrored_piece, piece_from_name,
    piece_name, piece_shape,
};

#[test]
fn piece_name_round_trip() {
    for ch in ['I', 'J', 'S', 'O', 'Z', 'L', 'T', 'M'] {
        let kind = piece_from_name(ch).unwrap();
        assert_eq!(piece_name(kind), ch);
    }
}

#[test]
fn piece_from_name_invalid() {
    assert!(piece_from_name('X').is_none());
    assert!(piece_from_name('-').is_none());
    assert!(piece_from_name(' ').is_none());
}

#[test]
fn piece_name_all_variants() {
    assert_eq!(piece_name(Tetromino::I), 'I');
    assert_eq!(piece_name(Tetromino::J), 'J');
    assert_eq!(piece_name(Tetromino::S), 'S');
    assert_eq!(piece_name(Tetromino::O), 'O');
    assert_eq!(piece_name(Tetromino::Z), 'Z');
    assert_eq!(piece_name(Tetromino::L), 'L');
    assert_eq!(piece_name(Tetromino::T), 'T');
    assert_eq!(piece_name(Tetromino::Mono), 'M');
}

#[test]
fn cell_from_piece_mapping() {
    assert_eq!(cell_from_piece(Tetromino::I), Cell::I);
    assert_eq!(cell_from_piece(Tetromino::J), Cell::J);
    assert_eq!(cell_from_piece(Tetromino::S), Cell::S);
    assert_eq!(cell_from_piece(Tetromino::O), Cell::O);
    assert_eq!(cell_from_piece(Tetromino::Z), Cell::Z);
    assert_eq!(cell_from_piece(Tetromino::L), Cell::L);
    assert_eq!(cell_from_piece(Tetromino::T), Cell::T);
    assert_eq!(cell_from_piece(Tetromino::Mono), Cell::Gray);
}

#[test]
fn each_standard_tetromino_has_exactly_four_cells() {
    let standard = [
        Tetromino::I,
        Tetromino::J,
        Tetromino::S,
        Tetromino::O,
        Tetromino::Z,
        Tetromino::L,
        Tetromino::T,
    ];
    let rotations = [
        Rotation::Spawn,
        Rotation::Left,
        Rotation::Reverse,
        Rotation::Right,
    ];
    for &kind in &standard {
        for &rot in &rotations {
            let shape = piece_shape(kind, rot);
            let count: usize = shape.iter().flatten().filter(|&&b| b).count();
            assert_eq!(count, 4, "{:?} at {:?} has {} cells", kind, rot, count);
        }
    }
}

#[test]
fn mono_has_one_cell() {
    let rotations = [
        Rotation::Spawn,
        Rotation::Left,
        Rotation::Reverse,
        Rotation::Right,
    ];
    for &rot in &rotations {
        let shape = piece_shape(Tetromino::Mono, rot);
        let count: usize = shape.iter().flatten().filter(|&&b| b).count();
        assert_eq!(count, 1, "Mono at {:?} has {} cells", rot, count);
    }
}

#[test]
fn mirrored_piece_j_l() {
    assert_eq!(mirrored_piece(Tetromino::J), Tetromino::L);
    assert_eq!(mirrored_piece(Tetromino::L), Tetromino::J);
}

#[test]
fn mirrored_piece_s_z() {
    assert_eq!(mirrored_piece(Tetromino::S), Tetromino::Z);
    assert_eq!(mirrored_piece(Tetromino::Z), Tetromino::S);
}

#[test]
fn mirrored_piece_identity() {
    assert_eq!(mirrored_piece(Tetromino::I), Tetromino::I);
    assert_eq!(mirrored_piece(Tetromino::O), Tetromino::O);
    assert_eq!(mirrored_piece(Tetromino::T), Tetromino::T);
    assert_eq!(mirrored_piece(Tetromino::Mono), Tetromino::Mono);
}

#[test]
fn mirrored_cell_j_l() {
    assert_eq!(mirrored_cell(Cell::J), Cell::L);
    assert_eq!(mirrored_cell(Cell::L), Cell::J);
}

#[test]
fn mirrored_cell_s_z() {
    assert_eq!(mirrored_cell(Cell::S), Cell::Z);
    assert_eq!(mirrored_cell(Cell::Z), Cell::S);
}

#[test]
fn mirrored_cell_identity() {
    assert_eq!(mirrored_cell(Cell::I), Cell::I);
    assert_eq!(mirrored_cell(Cell::O), Cell::O);
    assert_eq!(mirrored_cell(Cell::T), Cell::T);
    assert_eq!(mirrored_cell(Cell::Empty), Cell::Empty);
    assert_eq!(mirrored_cell(Cell::Gray), Cell::Gray);
    assert_eq!(mirrored_cell(Cell::GhostBlock), Cell::GhostBlock);
}
