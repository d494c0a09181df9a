use fivetris::game::board::Board;
use fivetris::game::highlight::{HighlightBoard, auto_color_board, piece_from_coords};
use fivetris::game::piece::{Cell, Tetromino};

#[test]
fn reset_clears_cells() {
    let mut highlights = HighlightBoard::new(3, 4);
    highlights.set(1, 2, 9);
    highlights.reset();
    assert!(highlights.cells.iter().all(|cell| *cell == 0));
}

#[test]
fn clear_cell_zeros_single_position() {
    let mut highlights = HighlightBoard::new(3, 4);
    highlights.set(1, 2, 9);
    highlights.clear_cell(1, 2);
    assert_eq!(highlights.get(1, 2), 0);
}

#[test]
fn highlight_replace_visible_rows_bottom_aligned_clears_and_aligns_rows() {
    let mut highlights = HighlightBoard::new(3, 5);
    highlights.set(0, 0, 7);

    highlights.replace_visible_rows_bottom_aligned(&vec![1, 2, 3, 4, 5, 6], 2);

    assert_eq!(highlights.get(0, 0), 0);
    assert_eq!(highlights.get(0, 3), 1);
    assert_eq!(highlights.get(1, 3), 2);
    assert_eq!(highlights.get(2, 3), 3);
    assert_eq!(highlights.get(0, 4), 4);
    assert_eq!(highlights.get(1, 4), 5);
    assert_eq!(highlights.get(2, 4), 6);
}

#[test]
fn sync_to_board_resizes_or_clears_as_needed() {
    let board = Board::new(4, 3, 1);
    let mut highlights = HighlightBoard::new(3, 4);
    highlights.set(1, 1, 8);

    highlights.sync_to_board(&board);

    assert_eq!(highlights.width, 4);
    assert_eq!(highlights.total_height, 4);
    assert!(highlights.cells.iter().all(|cell| *cell == 0));
}

#[test]
fn mirror_flips_each_row_by_width() {
    let mut highlights = HighlightBoard::new(4, 2);
    highlights.set(0, 0, 1);
    highlights.set(3, 0, 2);
    highlights.set(1, 1, 3);

    highlights.mirror();

    assert_eq!(highlights.get(3, 0), 1);
    assert_eq!(highlights.get(0, 0), 2);
    assert_eq!(highlights.get(2, 1), 3);
}

#[test]
fn piece_from_coords_recognizes_t_piece() {
    let coords = vec![(1, 1), (0, 1), (2, 1), (1, 0)];
    assert_eq!(piece_from_coords(&coords), Some(Tetromino::T));
}

#[test]
fn auto_color_board_recolors_exact_gray_tetrominoes() {
    let mut board = Board::new(10, 20, 4);
    board.set(4, 10, Cell::Gray);
    board.set(3, 10, Cell::Gray);
    board.set(5, 10, Cell::Gray);
    board.set(4, 9, Cell::Gray);

    auto_color_board(&mut board);

    assert_eq!(board.get(4, 10), Cell::T);
    assert_eq!(board.get(3, 10), Cell::T);
    assert_eq!(board.get(5, 10), Cell::T);
    assert_eq!(board.get(4, 9), Cell::T);
}

#[test]
fn auto_color_board_ignores_non_tetromino_regions() {
    let mut board = Board::new(10, 20, 4);
    board.set(1, 1, Cell::Gray);
    board.set(2, 1, Cell::Gray);
    board.set(3, 1, Cell::Gray);

    auto_color_board(&mut board);

    assert_eq!(board.get(1, 1), Cell::Gray);
    assert_eq!(board.get(2, 1), Cell::Gray);
    assert_eq!(board.get(3, 1), Cell::Gray);
}
