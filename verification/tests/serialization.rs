use base64::Engine;
use fivetris::game::codec::{CodecError, decode_legacy_clipboard, queue_from_bytes};
use fivetris::game::piece::{Cell, Tetromino};

#[test]
fn legacy_queue_decode_normalizes_sentinels_and_imports_board_text() {
    let queue_hex = "1234F0FE";
    let queue_bytes = queue_hex
        .as_bytes()
        .chunks_exact(2)
        .map(|pair| {
            u8::from_str_radix(std::str::from_utf8(pair).expect("hex is utf8"), 16)
                .expect("hex should parse")
        })
        .collect::<Vec<_>>();
    let queue_base64 = base64::engine::general_purpose::STANDARD.encode(queue_bytes);

    let imported = decode_legacy_clipboard(&format!("comment[{queue_base64}[I./.8"))
        .expect("legacy decode should succeed");

    assert_eq!(imported.queue.seed, 0x1234);
    assert_eq!(imported.hold.piece, None);
    assert_eq!(imported.queue.visible, vec![Tetromino::I]);
    assert_eq!(imported.board.width, 2);
    assert_eq!(imported.board.visible_height, 2);
    assert_eq!(imported.board.hidden_rows, 4);
    assert_eq!(imported.board.get(0, 4), Cell::I);
    assert_eq!(imported.board.get(1, 4), Cell::Empty);
    assert_eq!(imported.board.get(0, 5), Cell::Empty);
    assert_eq!(imported.board.get(1, 5), Cell::Gray);
}

#[test]
fn legacy_decode_rejects_invalid_input() {
    let error = decode_legacy_clipboard("[not-base64[??")
        .expect_err("invalid legacy clipboard should fail");

    let message = error.message();
    assert!(
        message.contains("base64") || message.contains("board"),
        "unexpected error message: {message}"
    );
}

#[test]
fn legacy_decode_without_sections_is_refused() {
    match decode_legacy_clipboard("no sections here") {
        Err(CodecError::MissingLegacyQueueSection) => {}
        other => panic!("expected a missing queue section, got {:?}", other),
    }
}

#[test]
fn queue_bytes_give_seed_hold_and_pieces() {
    let (seed, hold, pieces) = queue_from_bytes(&vec![0x12, 0x34, 0xF0, 0xFE]).expect("queue");
    assert_eq!(seed, 0x1234);
    assert_eq!(hold, None);
    assert_eq!(pieces, vec![Tetromino::I]);
}

#[test]
fn too_few_queue_bytes_are_refused() {
    assert!(queue_from_bytes(&vec![0x12, 0x34]).is_err());
}
