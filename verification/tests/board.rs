use fivetris::game::board::Board;
use fivetris::game::highlight::HighlightBoard;
use fivetris::game::piece::Cell;

#[test]
fn board_new_creates_empty_cells() {
    let b = Board::new(10, 20, 4);
    assert_eq!(b.width, 10);
    assert_eq!(b.visible_height, 20);
    assert_eq!(b.hidden_rows, 4);
    assert_eq!(b.total_height(), 24);
    assert_eq!(b.cells.len(), 240);
    assert!(b.cells.iter().all(|c| *c == Cell::Empty));
}

#[test]
fn board_indexing() {
    let mut b = Board::new(10, 20, 4);
    b.set(3, 5, Cell::T);
    assert_eq!(b.get(3, 5), Cell::T);
    let idx = 5 * b.width + 3;
    assert_eq!(b.cells[idx], Cell::T);
}

#[test]
fn board_in_bounds() {
    let b = Board::new(10, 20, 4);
    assert!(b.in_bounds(0, 0));
    assert!(b.in_bounds(9, 23));
    assert!(b.in_bounds(5, 10));
}

#[test]
fn board_out_of_bounds() {
    let b = Board::new(10, 20, 4);
    assert!(!b.in_bounds(-1, 0));
    assert!(!b.in_bounds(0, -1));
    assert!(!b.in_bounds(10, 0));
    assert!(!b.in_bounds(0, 24));
    assert!(!b.in_bounds(10, 24));
    assert!(!b.in_bounds(-5, -5));
}

#[test]
fn board_is_occupied_or_oob_oob() {
    let b = Board::new(10, 20, 4);
    assert!(b.is_occupied_or_oob(-1, 0));
    assert!(b.is_occupied_or_oob(10, 0));
    assert!(b.is_occupied_or_oob(0, 24));
}

#[test]
fn board_is_occupied_or_oob_empty() {
    let b = Board::new(10, 20, 4);
    assert!(!b.is_occupied_or_oob(0, 0));
    assert!(!b.is_occupied_or_oob(9, 23));
}

#[test]
fn board_is_occupied_or_oob_occupied() {
    let mut b = Board::new(10, 20, 4);
    b.set(4, 5, Cell::I);
    assert!(b.is_occupied_or_oob(4, 5));
    assert!(!b.is_occupied_or_oob(3, 5));
}

#[test]
fn board_clear_all() {
    let mut b = Board::new(10, 20, 4);
    b.set(0, 0, Cell::O);
    b.set(9, 23, Cell::J);
    b.clear_all();
    assert!(b.cells.iter().all(|c| *c == Cell::Empty));
}

#[test]
fn board_get_returns_correct_cell() {
    let mut b = Board::new(5, 10, 2);
    b.set(2, 7, Cell::Z);
    assert_eq!(b.get(2, 7), Cell::Z);
    assert_eq!(b.get(0, 0), Cell::Empty);
}

#[test]
fn board_replace_visible_rows_bottom_aligned_clears_and_aligns_rows() {
    let mut b = Board::new(3, 4, 2);
    b.set(0, 0, Cell::I);
    b.set(1, 5, Cell::T);

    b.replace_visible_rows_bottom_aligned(
        &vec![Cell::J, Cell::Empty, Cell::L, Cell::Gray, Cell::S, Cell::Z],
        2,
    );

    for y in 0..4 {
        assert_eq!(b.get(0, y), Cell::Empty);
        assert_eq!(b.get(1, y), Cell::Empty);
        assert_eq!(b.get(2, y), Cell::Empty);
    }

    assert_eq!(b.get(0, 4), Cell::J);
    assert_eq!(b.get(1, 4), Cell::Empty);
    assert_eq!(b.get(2, 4), Cell::L);
    assert_eq!(b.get(0, 5), Cell::Gray);
    assert_eq!(b.get(1, 5), Cell::S);
    assert_eq!(b.get(2, 5), Cell::Z);
}

#[test]
fn highlight_board_construction() {
    let h = HighlightBoard::new(10, 24);
    assert_eq!(h.cells.len(), 240);
}

#[test]
fn highlight_board_clear_line_shifts_values_down() {
    let mut highlights = HighlightBoard::new(3, 4);
    highlights.set(0, 0, 1);
    highlights.set(1, 1, 2);
    highlights.set(2, 2, 3);

    highlights.clear_line(2);

    assert_eq!(highlights.get(0, 0), 0);
    assert_eq!(highlights.get(1, 1), 0);
    assert_eq!(highlights.get(0, 1), 1);
    assert_eq!(highlights.get(1, 2), 2);
    assert_eq!(highlights.get(2, 3), 0);
}

#[test]
fn highlight_board_mirror_flips_columns() {
    let mut highlights = HighlightBoard::new(4, 2);
    highlights.set(0, 0, 1);
    highlights.set(3, 0, 2);
    highlights.set(1, 1, 3);

    highlights.mirror();

    assert_eq!(highlights.get(3, 0), 1);
    assert_eq!(highlights.get(0, 0), 2);
    assert_eq!(highlights.get(2, 1), 3);
}
