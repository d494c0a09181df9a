use fivetris::config::static_queue::{StaticQueueError, parse_static_queue};
use fivetris::game::piece::Tetromino;

#[test]
fn parse_static_queue_collects_all_non_whitespace_pieces() {
    let parsed = parse_static_queue("ILSOTZJ\nIIIIIII\nOTOTOTO\n").expect("parse queue");

    assert_eq!(parsed.len(), 21);
    assert_eq!(parsed[0], Tetromino::I);
    assert_eq!(parsed[6], Tetromino::J);
    assert_eq!(parsed[7], Tetromino::I);
    assert_eq!(parsed[14], Tetromino::O);
    assert_eq!(parsed[20], Tetromino::O);
}

#[test]
fn parse_static_queue_rejects_invalid_piece() {
    let error = parse_static_queue("ITX").expect_err("invalid piece should fail");

    assert_eq!(error, StaticQueueError::InvalidPiece('X'));
}

#[test]
fn parse_static_queue_allows_empty_content() {
    let parsed = parse_static_queue("  \n\t").expect("empty content should parse");

    assert!(parsed.is_empty());
}

#[test]
fn parse_static_queue_accepts_lower_case_letters() {
    let parsed = parse_static_queue("i l\tt").expect("lower case parses");

    assert_eq!(parsed, vec![Tetromino::I, Tetromino::L, Tetromino::T]);
    assert_eq!(parse_static_queue("im"), Err(StaticQueueError::InvalidPiece('M')));
}
