use vstd::prelude::*;

use base64::Engine;

use super::board::{Board, bottom_aligned};
use super::game_state::{
    ClearFlashState, GameMode, GameState, GravityState, HoldState, LockDelayState, QueueState,
    SpinState, Stats,
};
use super::highlight::HighlightBoard;
use super::piece::{
    Cell, DEFAULT_HIDDEN_ROWS, MAX_BOARD_WIDTH, MAX_VISIBLE_HEIGHT, PieceState, Rotation, Tetromino,
    cell_from_piece, piece_from_name, spec_cell_from_piece, spec_piece_from_name, spec_piece_name,
};
use super::text::{
    chars_text, decimal, has_char, push_decimal, push_str, remove_char, split_at_char, split_chars,
    str_chars, trim_chars, trimmed, without_char,
};

verus! {

/// The error type of the `base64` crate.
#[verifier::external_type_specification]
#[verifier::external_body]
pub struct ExDecodeError(base64::DecodeError);

/// The error type of `serde_json`.
#[verifier::external_type_specification]
#[verifier::external_body]
pub struct ExJsonError(serde_json::Error);

/// What the standard base64 engine of the `base64` crate decodes `input`
/// to, or `None` when it rejects it.
pub uninterp spec fn base64_standard_decode(input: Seq<char>) -> Option<Seq<u8>>;

/// `base64::engine::general_purpose::STANDARD.decode`: the bytes named by
/// `base64_standard_decode`, or the crate's error exactly when that name
/// gives `None`.
#[verifier::external_body]
fn decode_base64(input: &str) -> (r: Result<Vec<u8>, base64::DecodeError>)
    ensures
        match r {
            Ok(bytes) => base64_standard_decode(input@) == Some(bytes@),
            Err(_) => base64_standard_decode(input@) is None,
        },
{
    base64::engine::general_purpose::STANDARD.decode(input)
}

/// The `Display` text of a base64 decoding error; nothing is stated of it.
#[verifier::external_body]
fn decode_error_text(e: &base64::DecodeError) -> String {
    format!("{e}")
}

/// The `Display` text of a JSON error; nothing is stated of it.
#[verifier::external_body]
fn json_error_text(e: &serde_json::Error) -> String {
    format!("{e}")
}

/// Why a saved or pasted game could not be read.
#[derive(Debug)]
pub enum CodecError {
    Json(serde_json::Error),
    MissingLegacyQueueSection,
    MissingLegacyBoardSection,
    InvalidLegacyQueueEncoding(base64::DecodeError),
    InvalidLegacyQueueHex(char),
    InvalidLegacyBoardCharacter(char),
    InvalidLegacyBoardShape(String),
    UnsupportedLegacyBoardEncoding,
}

impl CodecError {
    /// The message shown for the error.
    pub fn message(&self) -> (r: String)
        ensures
            match self {
                CodecError::Json(_) => "state codec json error: "@.is_prefix_of(r@),
                CodecError::MissingLegacyQueueSection => r@ == "legacy import is missing a queue section"@,
                CodecError::MissingLegacyBoardSection => r@ == "legacy import is missing a board section"@,
                CodecError::InvalidLegacyQueueEncoding(_) => "legacy queue data is not valid base64: "@.is_prefix_of(
                    r@,
                ),
                CodecError::InvalidLegacyQueueHex(ch) => r@ == "legacy queue contains an invalid hex digit: "@.push(
                    *ch,
                ),
                CodecError::InvalidLegacyBoardCharacter(ch) => r@
                    == "legacy board contains an invalid cell character: "@.push(*ch),
                CodecError::InvalidLegacyBoardShape(m) => r@ == "legacy board shape error: "@ + m@,
                CodecError::UnsupportedLegacyBoardEncoding => r@
                    == "legacy board payload uses compressed encoding that is not supported"@,
            },
    {
        let mut r = String::new();
        match self {
            CodecError::Json(error) => {
                push_str(&mut r, "state codec json error: ");
                let detail = json_error_text(error);
                push_str(&mut r, detail.as_str());
            },
            CodecError::MissingLegacyQueueSection => {
                push_str(&mut r, "legacy import is missing a queue section");
            },
            CodecError::MissingLegacyBoardSection => {
                push_str(&mut r, "legacy import is missing a board section");
            },
            CodecError::InvalidLegacyQueueEncoding(error) => {
                push_str(&mut r, "legacy queue data is not valid base64: ");
                let detail = decode_error_text(error);
                push_str(&mut r, detail.as_str());
            },
            CodecError::InvalidLegacyQueueHex(ch) => {
                push_str(&mut r, "legacy queue contains an invalid hex digit: ");
                r.push(*ch);
            },
            CodecError::InvalidLegacyBoardCharacter(ch) => {
                push_str(&mut r, "legacy board contains an invalid cell character: ");
                r.push(*ch);
            },
            CodecError::InvalidLegacyBoardShape(message) => {
                push_str(&mut r, "legacy board shape error: ");
                push_str(&mut r, message.as_str());
            },
            CodecError::UnsupportedLegacyBoardEncoding => {
                push_str(&mut r, "legacy board payload uses compressed encoding that is not supported");
            },
        }
        r
    }
}

/// The value of a hexadecimal digit, upper or lower case.
pub open spec fn hex_value(ch: char) -> Option<int> {
    if '0' <= ch <= '9' {
        Some(ch as int - '0' as int)
    } else if 'a' <= ch <= 'f' {
        Some(ch as int - 'a' as int + 10)
    } else if 'A' <= ch <= 'F' {
        Some(ch as int - 'A' as int + 10)
    } else {
        None
    }
}

/// The value of a hexadecimal digit, or the error naming it.
fn parse_hex_nibble(ch: char) -> (r: Result<u8, CodecError>)
    ensures
        match hex_value(ch) {
            Some(v) => r matches Ok(n) && n == v,
            None => r matches Err(CodecError::InvalidLegacyQueueHex(c)) && c == ch,
        },
{
    if '0' <= ch && ch <= '9' {
        Ok((ch as u32 - '0' as u32) as u8)
    } else if 'a' <= ch && ch <= 'f' {
        Ok((ch as u32 - 'a' as u32 + 10) as u8)
    } else if 'A' <= ch && ch <= 'F' {
        Ok((ch as u32 - 'A' as u32 + 10) as u8)
    } else {
        Err(CodecError::InvalidLegacyQueueHex(ch))
    }
}

/// The piece numbered `value` in legacy data: I, J, S, O, Z, L, T and the
/// single block for zero through seven.
pub open spec fn spec_tetromino_from_index(value: int) -> Option<Tetromino> {
    if value == 0 {
        Some(Tetromino::I)
    } else if value == 1 {
        Some(Tetromino::J)
    } else if value == 2 {
        Some(Tetromino::S)
    } else if value == 3 {
        Some(Tetromino::O)
    } else if value == 4 {
        Some(Tetromino::Z)
    } else if value == 5 {
        Some(Tetromino::L)
    } else if value == 6 {
        Some(Tetromino::T)
    } else if value == 7 {
        Some(Tetromino::Mono)
    } else {
        None
    }
}

/// The piece numbered `value` in legacy data.
fn tetromino_from_index(value: u8) -> (r: Option<Tetromino>)
    ensures
        r == spec_tetromino_from_index(value as int),
{
    match value {
        0 => Some(Tetromino::I),
        1 => Some(Tetromino::J),
        2 => Some(Tetromino::S),
        3 => Some(Tetromino::O),
        4 => Some(Tetromino::Z),
        5 => Some(Tetromino::L),
        6 => Some(Tetromino::T),
        7 => Some(Tetromino::Mono),
        _ => None,
    }
}

/// A legacy piece digit: fifteen means none, zero through seven name a
/// piece, anything else stands for the single block.
pub open spec fn spec_normalize_legacy_piece(value: int) -> Option<Tetromino> {
    if value == 15 {
        None
    } else if 0 <= value <= 7 {
        spec_tetromino_from_index(value)
    } else {
        Some(Tetromino::Mono)
    }
}

/// Reads a legacy piece digit.
fn normalize_legacy_piece(value: u8) -> (r: Option<Tetromino>)
    ensures
        r == spec_normalize_legacy_piece(value as int),
{
    if value == 15 {
        None
    } else if value <= 7 {
        tetromino_from_index(value)
    } else {
        Some(Tetromino::Mono)
    }
}

/// The hexadecimal digits of the bytes, high digit first.
pub open spec fn nibbles(bytes: Seq<u8>) -> Seq<int> {
    Seq::new(
        2 * bytes.len(),
        |i: int|
            if i % 2 == 0 {
                bytes[i / 2] as int / 16
            } else {
                bytes[i / 2] as int % 16
            },
    )
}

/// The pieces named by legacy digits, the "none" digits left out.
pub open spec fn legacy_pieces(digits: Seq<int>) -> Seq<Tetromino>
    decreases digits.len(),
{
    if digits.len() == 0 {
        Seq::empty()
    } else {
        let prev = legacy_pieces(digits.drop_last());
        match spec_normalize_legacy_piece(digits.last()) {
            Some(p) => prev.push(p),
            None => prev,
        }
    }
}

/// The queue digits of a legacy payload: everything after the seed and
/// hold digits, without a final end marker (`E`).
pub open spec fn queue_digits(bytes: Seq<u8>) -> Seq<int> {
    let rest = nibbles(bytes).subrange(5, 2 * bytes.len() as int);
    if rest.len() > 0 && rest.last() == 14 {
        rest.drop_last()
    } else {
        rest
    }
}

/// `r` is what reading the decoded queue payload `bytes` gives: the seed,
/// hold piece and queue, or the too-short error for fewer than three bytes.
pub open spec fn queue_result(
    bytes: Seq<u8>,
    r: Result<(u16, Option<Tetromino>, Vec<Tetromino>), CodecError>,
) -> bool {
    if bytes.len() < 3 {
        r matches Err(CodecError::InvalidLegacyBoardShape(m)) && m@
            == "legacy queue payload is too short"@
    } else {
        r matches Ok((seed, hold, queue)) && seed == bytes[0] as int * 256 + bytes[1] as int
            && hold == spec_normalize_legacy_piece(bytes[2] as int / 16) && queue@ == legacy_pieces(
            queue_digits(bytes),
        )
    }
}

/// Reads the decoded queue section of a legacy clipboard text: four hex
/// digits of seed, one hold digit, then the queue digits. Fewer than three
/// bytes are too short.
pub fn queue_from_bytes(bytes: &Vec<u8>) -> (r: Result<(u16, Option<Tetromino>, Vec<Tetromino>), CodecError>)
    ensures
        queue_result(bytes@, r),
{
    if bytes.len() < 3 {
        return Err(CodecError::InvalidLegacyBoardShape("legacy queue payload is too short".to_owned()));
    }
    let seed: u16 = (bytes[0] as u16) * 256 + bytes[1] as u16;
    let hold_piece = normalize_legacy_piece(bytes[2] / 16);
    let ghost all = nibbles(bytes@);
    let len = bytes.len();
    let ends_marked = bytes[len - 1] % 16 == 14;
    let ghost digits = queue_digits(bytes@);
    proof {
        assert(all[2 * len - 1] == bytes@[len - 1] % 16);
        if ends_marked {
            assert(digits =~= all.subrange(5, 2 * len - 1));
        } else {
            assert(digits =~= all.subrange(5, 2 * len as int));
        }
        assert(all[5] == bytes@[2] % 16);
        assert(all.subrange(5, 6).drop_last() =~= all.subrange(5, 5));
    }
    let mut queue: Vec<Tetromino> = Vec::new();
    if !(len == 3 && ends_marked) {
        match normalize_legacy_piece(bytes[2] % 16) {
            Some(piece) => queue.push(piece),
            None => {},
        }
        proof {
            assert(all.subrange(5, 6).last() == all[5]);
            assert(all.subrange(5, 6).drop_last() =~= all.subrange(5, 5));
            assert(all.subrange(5, 5).len() == 0);
            assert(legacy_pieces(all.subrange(5, 5)) == Seq::<Tetromino>::empty());
            assert(queue@ =~= legacy_pieces(all.subrange(5, 6)));
        }
    } else {
        proof {
            assert(all.subrange(5, 5) =~= Seq::<int>::empty());
        }
    }
    let mut j: usize = 3;
    while j < len
        invariant
            all == nibbles(bytes@),
            len == bytes@.len(),
            len >= 3,
            3 <= j <= len,
            digits == queue_digits(bytes@),
            ends_marked == (bytes@[len - 1] % 16 == 14),
            ends_marked ==> digits == all.subrange(5, 2 * len - 1),
            !ends_marked ==> digits == all.subrange(5, 2 * len as int),
            j == len && ends_marked ==> queue@ == legacy_pieces(all.subrange(5, 2 * j - 1)),
            !(j == len && ends_marked) ==> queue@ == legacy_pieces(all.subrange(5, 2 * j as int)),
        decreases len - j,
    {
        let byte = bytes[j];
        proof {
            assert(all[2 * j as int] == byte / 16);
            assert(all[2 * j + 1] == byte % 16);
            assert(all.subrange(5, 2 * j + 1).drop_last() =~= all.subrange(5, 2 * j as int));
            assert(all.subrange(5, 2 * j + 2).drop_last() =~= all.subrange(5, 2 * j + 1));
            assert(all.subrange(5, 2 * j + 1).last() == all[2 * j as int]);
            assert(all.subrange(5, 2 * j + 2).last() == all[2 * j + 1]);
        }
        match normalize_legacy_piece(byte / 16) {
            Some(piece) => queue.push(piece),
            None => {},
        }
        assert(queue@ == legacy_pieces(all.subrange(5, 2 * j + 1)));
        if !(j == len - 1 && ends_marked) {
            match normalize_legacy_piece(byte % 16) {
                Some(piece) => queue.push(piece),
                None => {},
            }
            assert(queue@ == legacy_pieces(all.subrange(5, 2 * j + 2)));
        }
        j += 1;
    }
    Ok((seed, hold_piece, queue))
}

/// Reads the queue section of a legacy clipboard text: base64 text of the
/// payload that `queue_from_bytes` reads.
fn decode_legacy_queue(input: &str) -> (r: Result<(u16, Option<Tetromino>, Vec<Tetromino>), CodecError>)
    ensures
        base64_standard_decode(input@) is None ==> r matches Err(
            CodecError::InvalidLegacyQueueEncoding(_),
        ),
        base64_standard_decode(input@) matches Some(bytes) ==> queue_result(bytes, r),
{
    match decode_base64(input) {
        Err(error) => Err(CodecError::InvalidLegacyQueueEncoding(error)),
        Ok(bytes) => queue_from_bytes(&bytes),
    }
}

/// The ASCII upper-case form of a character.
pub open spec fn ascii_upper(ch: char) -> char {
    if 'a' <= ch <= 'z' {
        ((ch as int) - 32) as char
    } else {
        ch
    }
}

/// The cell a legacy board character stands for, upper or lower case:
/// `. _ - 0` empty, `8 G M X #` garbage, digits one through seven and the
/// piece letters the pieces.
pub open spec fn spec_legacy_cell(ch: char) -> Option<Cell> {
    let u = ascii_upper(ch);
    if u == '.' || u == '_' || u == '-' || u == '0' {
        Some(Cell::Empty)
    } else if u == '8' || u == 'G' || u == 'M' || u == 'X' || u == '#' {
        Some(Cell::Gray)
    } else if u == '1' {
        Some(Cell::I)
    } else if u == '2' {
        Some(Cell::J)
    } else if u == '3' {
        Some(Cell::S)
    } else if u == '4' {
        Some(Cell::O)
    } else if u == '5' {
        Some(Cell::Z)
    } else if u == '6' {
        Some(Cell::L)
    } else if u == '7' {
        Some(Cell::T)
    } else {
        match spec_piece_from_name(u) {
            Some(p) => Some(spec_cell_from_piece(p)),
            None => None,
        }
    }
}

/// The cell a legacy board character stands for, or the error naming it.
fn parse_legacy_board_cell(ch: char) -> (r: Result<Cell, CodecError>)
    ensures
        match spec_legacy_cell(ch) {
            Some(c) => r matches Ok(cell) && cell == c,
            None => r matches Err(CodecError::InvalidLegacyBoardCharacter(c)) && c == ch,
        },
{
    let upper = if 'a' <= ch && ch <= 'z' {
        ((ch as u32) - 32) as u8 as char
    } else {
        ch
    };
    assert(upper == ascii_upper(ch));
    let cell = match upper {
        '.' | '_' | '-' | '0' => Cell::Empty,
        '8' | 'G' | 'M' | 'X' | '#' => Cell::Gray,
        '1' => Cell::I,
        '2' => Cell::J,
        '3' => Cell::S,
        '4' => Cell::O,
        '5' => Cell::Z,
        '6' => Cell::L,
        '7' => Cell::T,
        _ => match piece_from_name(upper) {
            Some(piece) => cell_from_piece(piece),
            None => {
                return Err(CodecError::InvalidLegacyBoardCharacter(ch));
            },
        },
    };
    Ok(cell)
}

/// Whether a character may appear in base64 text.
pub open spec fn base64_char(ch: char) -> bool {
    ('a' <= ch <= 'z') || ('A' <= ch <= 'Z') || ('0' <= ch <= '9') || ch == '+' || ch == '/' || ch
        == '='
}

/// Text without line breaks or slashes made only of base64 characters:
/// the compressed board encoding, which is not supported.
pub open spec fn spec_looks_like_compressed_board(input: Seq<char>) -> bool {
    &&& !input.contains('\n')
    &&& !input.contains('/')
    &&& forall|i: int| 0 <= i < input.len() ==> base64_char(#[trigger] input[i])
}

/// Whether the board text looks like the compressed encoding.
fn looks_like_compressed_board(input: &Vec<char>) -> (r: bool)
    ensures
        r == spec_looks_like_compressed_board(input@),
{
    if has_char(input, '\n') || has_char(input, '/') {
        return false;
    }
    let mut i: usize = 0;
    while i < input.len()
        invariant
            i <= input@.len(),
            forall|k: int| 0 <= k < i ==> base64_char(#[trigger] input@[k]),
        decreases input@.len() - i,
    {
        let ch = input[i];
        let ok = ('a' <= ch && ch <= 'z') || ('A' <= ch && ch <= 'Z') || ('0' <= ch && ch <= '9')
            || ch == '+' || ch == '/' || ch == '=';
        if !ok {
            return false;
        }
        i += 1;
    }
    true
}

/// The non-empty trimmed pieces of `pieces`, in order.
pub open spec fn nonempty_trimmed(pieces: Seq<Seq<char>>) -> Seq<Seq<char>>
    decreases pieces.len(),
{
    if pieces.len() == 0 {
        Seq::empty()
    } else {
        let prev = nonempty_trimmed(pieces.drop_last());
        let t = trimmed(pieces.last());
        if t.len() > 0 {
            prev.push(t)
        } else {
            prev
        }
    }
}

/// The rows of a legacy board text: carriage returns removed, then split
/// at line breaks (or at slashes when there are none), trimmed, and empty
/// rows left out.
pub open spec fn legacy_rows(input: Seq<char>) -> Seq<Seq<char>> {
    let normalized = without_char(input, '\r');
    let sep = if normalized.contains('\n') {
        '\n'
    } else {
        '/'
    };
    nonempty_trimmed(split_at_char(normalized, sep))
}

/// The cells of a row, or the first character that names no cell.
pub open spec fn row_cells(row: Seq<char>) -> Result<Seq<Cell>, char>
    decreases row.len(),
{
    if row.len() == 0 {
        Ok(Seq::empty())
    } else {
        match row_cells(row.drop_last()) {
            Err(c) => Err(c),
            Ok(cells) => match spec_legacy_cell(row.last()) {
                Some(cell) => Ok(cells.push(cell)),
                None => Err(row.last()),
            },
        }
    }
}

/// The cells of all rows, top row first, or the first problem met: a row
/// of another width than `width` (`None`) or a character naming no cell.
pub open spec fn rows_cells(rows: Seq<Seq<char>>, width: int) -> Result<Seq<Cell>, Option<char>>
    decreases rows.len(),
{
    if rows.len() == 0 {
        Ok(Seq::empty())
    } else {
        match rows_cells(rows.drop_last(), width) {
            Err(e) => Err(e),
            Ok(cells) => if rows.last().len() != width {
                Err(None)
            } else {
                match row_cells(rows.last()) {
                    Err(c) => Err(Some(c)),
                    Ok(more) => Ok(cells + more),
                }
            },
        }
    }
}

/// `r` is what reading the legacy board text `input` gives.
pub open spec fn board_text_result(input: Seq<char>, r: Result<Board, CodecError>) -> bool {
    let rows = legacy_rows(input);
    if rows.len() == 0 {
        if spec_looks_like_compressed_board(input) {
            r matches Err(CodecError::UnsupportedLegacyBoardEncoding)
        } else {
            r matches Err(CodecError::InvalidLegacyBoardShape(m)) && m@ == "legacy board is empty"@
        }
    } else {
        let width = rows[0].len();
        if width > MAX_BOARD_WIDTH {
            r matches Err(CodecError::InvalidLegacyBoardShape(m)) && m@ == "legacy board width "@
                + decimal(width) + " exceeds maximum 32"@
        } else if rows.len() > MAX_VISIBLE_HEIGHT {
            r matches Err(CodecError::InvalidLegacyBoardShape(m)) && m@ == "legacy board height "@
                + decimal(rows.len()) + " exceeds maximum 28"@
        } else {
            match rows_cells(rows, width as int) {
                Err(None) => r matches Err(CodecError::InvalidLegacyBoardShape(m)) && m@
                    == "legacy board rows must all have the same width"@,
                Err(Some(c)) => r matches Err(CodecError::InvalidLegacyBoardCharacter(e)) && e == c,
                Ok(cells) => r matches Ok(board) && {
                    &&& board.wf()
                    &&& board.width == width
                    &&& board.visible_height == rows.len()
                    &&& board.hidden_rows == DEFAULT_HIDDEN_ROWS
                    &&& board.cells@ == bottom_aligned(
                        board.cells@.len(),
                        width as int,
                        board.total(),
                        cells,
                        rows.len() as int,
                        Cell::Empty,
                    )
                },
            }
        }
    }
}

/// The trimmed non-empty pieces, computed.
fn collect_rows(pieces: &Vec<Vec<char>>) -> (rows: Vec<Vec<char>>)
    ensures
        rows@.len() == nonempty_trimmed(pieces@.map_values(|p: Vec<char>| p@)).len(),
        forall|i: int|
            0 <= i < rows@.len() ==> #[trigger] rows@[i]@ == nonempty_trimmed(
                pieces@.map_values(|p: Vec<char>| p@),
            )[i],
{
    let ghost views = pieces@.map_values(|p: Vec<char>| p@);
    let mut rows: Vec<Vec<char>> = Vec::new();
    let mut i: usize = 0;
    while i < pieces.len()
        invariant
            views == pieces@.map_values(|p: Vec<char>| p@),
            i <= pieces@.len(),
            rows@.len() == nonempty_trimmed(views.subrange(0, i as int)).len(),
            forall|k: int|
                0 <= k < rows@.len() ==> #[trigger] rows@[k]@ == nonempty_trimmed(
                    views.subrange(0, i as int),
                )[k],
        decreases pieces@.len() - i,
    {
        proof {
            assert(views.subrange(0, i + 1).drop_last() =~= views.subrange(0, i as int));
            assert(views.subrange(0, i + 1).last() == pieces@[i as int]@);
        }
        let piece = &pieces[i];
        let t = trim_chars(piece, 0, piece.len());
        proof {
            assert(piece@.subrange(0, piece@.len() as int) =~= piece@);
        }
        if t.len() > 0 {
            rows.push(t);
        }
        i += 1;
    }
    proof {
        assert(views.subrange(0, pieces@.len() as int) =~= views);
    }
    rows
}

/// Reads the board section of a legacy clipboard text: rows of cell
/// characters, top row first, placed at the bottom of a board with the
/// default hidden rows above them.
fn decode_legacy_board_text(input: &Vec<char>) -> (r: Result<Board, CodecError>)
    ensures
        board_text_result(input@, r),
{
    let normalized = remove_char(input, '\r');
    let sep = if has_char(&normalized, '\n') {
        '\n'
    } else {
        '/'
    };
    let pieces = split_chars(&normalized, sep);
    proof {
        assert(pieces@.map_values(|p: Vec<char>| p@) =~= split_at_char(normalized@, sep));
    }
    let rows = collect_rows(&pieces);
    let ghost spec_rows = legacy_rows(input@);
    assert(rows@.len() == spec_rows.len());
    if rows.len() == 0 {
        if looks_like_compressed_board(input) {
            return Err(CodecError::UnsupportedLegacyBoardEncoding);
        } else {
            return Err(CodecError::InvalidLegacyBoardShape("legacy board is empty".to_owned()));
        }
    }
    let width = rows[0].len();
    assert(width == spec_rows[0].len());
    proof {
        lemma_nonempty_trimmed_rows(split_at_char(without_char(input@, '\r'), sep));
    }
    if width == 0 {
        return Err(CodecError::InvalidLegacyBoardShape("legacy board rows may not be empty".to_owned()));
    }
    if width > MAX_BOARD_WIDTH {
        let mut message = String::new();
        push_str(&mut message, "legacy board width ");
        push_decimal(&mut message, width);
        push_str(&mut message, " exceeds maximum 32");
        return Err(CodecError::InvalidLegacyBoardShape(message));
    }
    if rows.len() > MAX_VISIBLE_HEIGHT {
        let mut message = String::new();
        push_str(&mut message, "legacy board height ");
        push_decimal(&mut message, rows.len());
        push_str(&mut message, " exceeds maximum 28");
        return Err(CodecError::InvalidLegacyBoardShape(message));
    }
    let mut visible_cells: Vec<Cell> = Vec::new();
    let mut k: usize = 0;
    while k < rows.len()
        invariant
            spec_rows == legacy_rows(input@),
            width == spec_rows[0].len(),
            rows@.len() == spec_rows.len(),
            forall|i: int| 0 <= i < rows@.len() ==> #[trigger] rows@[i]@ == spec_rows[i],
            1 <= width <= MAX_BOARD_WIDTH,
            rows@.len() <= MAX_VISIBLE_HEIGHT,
            k <= rows@.len(),
            rows_cells(spec_rows.subrange(0, k as int), width as int) == Ok::<Seq<Cell>, Option<char>>(
                visible_cells@,
            ),
            visible_cells@.len() == k * width,
        decreases rows@.len() - k,
    {
        let row = &rows[k];
        proof {
            assert(spec_rows.subrange(0, k + 1).drop_last() =~= spec_rows.subrange(0, k as int));
            assert(spec_rows.subrange(0, k + 1).last() == row@);
        }
        if row.len() != width {
            proof {
                assert(rows_cells(spec_rows.subrange(0, k + 1), width as int) is Err);
                lemma_rows_cells_err_sticks(spec_rows, k as int + 1, width as int);
            }
            return Err(
                CodecError::InvalidLegacyBoardShape(
                    "legacy board rows must all have the same width".to_owned(),
                ),
            );
        }
        let ghost before = visible_cells@;
        proof {
            assert(visible_cells@.subrange(before.len() as int, visible_cells@.len() as int) =~= Seq::<
                Cell,
            >::empty());
            assert(row@.subrange(0, 0) =~= Seq::<char>::empty());
            assert(visible_cells@.subrange(0, before.len() as int) =~= before);
        }
        let mut c: usize = 0;
        while c < row.len()
            invariant
                spec_rows == legacy_rows(input@),
                width == spec_rows[0].len(),
                1 <= width <= MAX_BOARD_WIDTH,
                rows@.len() <= MAX_VISIBLE_HEIGHT,
                rows@.len() > 0,
                k < rows@.len(),
                rows@.len() == spec_rows.len(),
                row@ == spec_rows[k as int],
                spec_rows.subrange(0, k + 1).drop_last() == spec_rows.subrange(0, k as int),
                spec_rows.subrange(0, k + 1).last() == row@,
                rows_cells(spec_rows.subrange(0, k as int), width as int) == Ok::<Seq<Cell>, Option<char>>(
                    before,
                ),
                c <= row@.len(),
                row@.len() == width,
                row_cells(row@.subrange(0, c as int)) == Ok::<Seq<Cell>, char>(
                    visible_cells@.subrange(before.len() as int, visible_cells@.len() as int),
                ),
                visible_cells@.subrange(0, before.len() as int) == before,
                visible_cells@.len() == before.len() + c,
            decreases row@.len() - c,
        {
            proof {
                assert(row@.subrange(0, c + 1).drop_last() =~= row@.subrange(0, c as int));
            }
            let ch = row[c];
            match parse_legacy_board_cell(ch) {
                Ok(cell) => {
                    let ghost prev = visible_cells@;
                    visible_cells.push(cell);
                    proof {
                        assert(visible_cells@.subrange(before.len() as int, visible_cells@.len() as int)
                            =~= prev.subrange(before.len() as int, prev.len() as int).push(cell));
                        assert(visible_cells@.subrange(0, before.len() as int) =~= prev.subrange(
                            0,
                            before.len() as int,
                        ));
                    }
                },
                Err(e) => {
                    proof {
                        assert(row_cells(row@.subrange(0, c + 1)) == Err::<Seq<Cell>, char>(ch));
                        lemma_row_cells_first_err(row@, c as int + 1);
                        assert(rows_cells(spec_rows.subrange(0, k + 1), width as int) == Err::<
                            Seq<Cell>,
                            Option<char>,
                        >(Some(ch)));
                        lemma_rows_cells_err_sticks(spec_rows, k as int + 1, width as int);
                    }
                    return Err(e);
                },
            }
            c += 1;
        }
        proof {
            assert(row@.subrange(0, row@.len() as int) =~= row@);
            assert(visible_cells@ =~= before + visible_cells@.subrange(
                before.len() as int,
                visible_cells@.len() as int,
            ));
            assert((k + 1) * width == k * width + width) by (nonlinear_arith);
        }
        k += 1;
    }
    proof {
        assert(spec_rows.subrange(0, rows@.len() as int) =~= spec_rows);
        assert(width * rows@.len() <= 32 * 28) by (nonlinear_arith)
            requires
                width <= 32,
                rows@.len() <= 28,
        ;
        assert(rows@.len() * width == width * rows@.len()) by (nonlinear_arith);
        assert(width * (rows@.len() + 4) <= 32 * 32) by (nonlinear_arith)
            requires
                width <= 32,
                rows@.len() <= 28,
        ;
    }
    let mut board = Board::new(width, rows.len(), DEFAULT_HIDDEN_ROWS);
    board.replace_visible_rows_bottom_aligned(&visible_cells, rows.len());
    Ok(board)
}

/// The state a legacy clipboard import starts from: training mode with the
/// imported board, hold piece, queue and seed, everything else at its
/// default, an I piece at the spawn position, and an empty overlay.
pub open spec fn imported_state(
    g: GameState,
    board: Board,
    seed: u16,
    hold_piece: Option<Tetromino>,
    queue: Seq<Tetromino>,
) -> bool {
    &&& g.board == board
    &&& g.highlights.wf()
    &&& g.highlights.width == board.width
    &&& g.highlights.total_height == board.total()
    &&& g.highlights.all_zero()
    &&& g.queue.visible@ == queue
    &&& g.queue.seed == seed
    &&& g.queue.mode == super::game_state::BagMode::SevenBag
    &&& g.stats == Stats::spec_default()
    &&& g.clear_flash.is_default()
    &&& g == (GameState {
        mode: GameMode::Training,
        board: board,
        highlights: g.highlights,
        current: PieceState {
            kind: Tetromino::I,
            rotation: Rotation::Spawn,
            x: (board.width as int / 2 - 2) as i32,
            y: (board.hidden_rows - 2) as i32,
        },
        hold: HoldState { piece: hold_piece, ..HoldState::spec_default() },
        queue: g.queue,
        stats: g.stats,
        spin: SpinState::spec_default(),
        gravity: GravityState::spec_default(),
        ghost_piece: true,
        auto_color: false,
        auto_lock_on_ground: false,
        mirror_queue_with_field: false,
        highlight_clear: false,
        pc_leftover: 0,
        garbage_hole_pos: 0,
        garbage_hole_size: 0,
        garbage_hole_next_change: 0,
        lock_delay: LockDelayState::spec_default(),
        clear_flash: g.clear_flash,
    })
}

/// A fresh game state around an imported board, queue and hold piece.
fn build_imported_state(
    board: Board,
    seed: u16,
    hold_piece: Option<Tetromino>,
    queue: Vec<Tetromino>,
) -> (g: GameState)
    requires
        board.wf(),
    ensures
        imported_state(g, board, seed, hold_piece, queue@),
{
    let total_height = board.total_height();
    let default_hold = HoldState::default();
    let default_queue = QueueState::default();
    let ghost queue_view = queue@;
    GameState {
        mode: GameMode::Training,
        highlights: HighlightBoard::new(board.width, total_height),
        current: PieceState {
            kind: Tetromino::I,
            rotation: Rotation::Spawn,
            x: board.spawn_x(),
            y: board.spawn_y(),
        },
        hold: HoldState { piece: hold_piece, ..default_hold },
        queue: QueueState { visible: queue, seed, ..default_queue },
        stats: Stats::default(),
        spin: SpinState::default(),
        gravity: GravityState::default(),
        ghost_piece: true,
        auto_color: false,
        auto_lock_on_ground: false,
        mirror_queue_with_field: false,
        highlight_clear: false,
        pc_leftover: 0,
        garbage_hole_pos: 0,
        garbage_hole_size: 0,
        garbage_hole_next_change: 0,
        lock_delay: LockDelayState::default(),
        clear_flash: ClearFlashState::default(),
        board,
    }
}

/// The board of an import's result, or its error.
pub open spec fn result_board(r: Result<GameState, CodecError>) -> Result<Board, CodecError> {
    match r {
        Ok(g) => Ok(g.board),
        Err(e) => Err(e),
    }
}

/// The trimmed section `i` of a legacy clipboard text (sections are
/// separated by `[`), empty when there is no such section.
pub open spec fn clipboard_section(input: Seq<char>, i: int) -> Seq<char> {
    let sections = split_at_char(input, '[');
    if sections.len() > i {
        trimmed(sections[i])
    } else {
        Seq::empty()
    }
}

/// `r` is what importing the legacy clipboard text `input` gives: the
/// queue section (the second, base64 text) and the board section (the
/// third) must both be there; the queue is read first, then the board.
pub open spec fn clipboard_result(input: Seq<char>, r: Result<GameState, CodecError>) -> bool {
    let q = clipboard_section(input, 1);
    let bs = clipboard_section(input, 2);
    if q.len() == 0 {
        r matches Err(CodecError::MissingLegacyQueueSection)
    } else if bs.len() == 0 {
        r matches Err(CodecError::MissingLegacyBoardSection)
    } else {
        match base64_standard_decode(q) {
            None => r matches Err(CodecError::InvalidLegacyQueueEncoding(_)),
            Some(bytes) => if bytes.len() < 3 {
                r matches Err(CodecError::InvalidLegacyBoardShape(m)) && m@
                    == "legacy queue payload is too short"@
            } else {
                &&& board_text_result(bs, result_board(r))
                &&& r matches Ok(g) ==> imported_state(
                    g,
                    g.board,
                    (bytes[0] as int * 256 + bytes[1] as int) as u16,
                    spec_normalize_legacy_piece(bytes[2] as int / 16),
                    legacy_pieces(queue_digits(bytes)),
                )
            },
        }
    }
}

/// Imports a game from the legacy clipboard format: text, then `[` and the
/// base64 queue section, then `[` and the board section.
pub fn decode_legacy_clipboard(input: &str) -> (r: Result<GameState, CodecError>)
    ensures
        clipboard_result(input@, r),
{
    let chars = str_chars(input);
    let sections = split_chars(&chars, '[');
    let ghost secs = split_at_char(input@, '[');
    let queue_section = if sections.len() > 1 {
        trim_chars(&sections[1], 0, sections[1].len())
    } else {
        Vec::new()
    };
    proof {
        if sections@.len() > 1 {
            assert(sections@[1]@.subrange(0, sections@[1]@.len() as int) =~= sections@[1]@);
        }
        assert(queue_section@ == clipboard_section(input@, 1));
    }
    if queue_section.len() == 0 {
        return Err(CodecError::MissingLegacyQueueSection);
    }
    let board_section = if sections.len() > 2 {
        trim_chars(&sections[2], 0, sections[2].len())
    } else {
        Vec::new()
    };
    proof {
        if sections@.len() > 2 {
            assert(sections@[2]@.subrange(0, sections@[2]@.len() as int) =~= sections@[2]@);
        }
        assert(board_section@ == clipboard_section(input@, 2));
    }
    if board_section.len() == 0 {
        return Err(CodecError::MissingLegacyBoardSection);
    }
    let queue_text = chars_text(&queue_section);
    let (seed, hold_piece, queue) = match decode_legacy_queue(queue_text.as_str()) {
        Ok(parts) => parts,
        Err(e) => {
            return Err(e);
        },
    };
    let board = match decode_legacy_board_text(&board_section) {
        Ok(board) => board,
        Err(e) => {
            return Err(e);
        },
    };
    Ok(build_imported_state(board, seed, hold_piece, queue))
}

/// A row whose prefix fails to read fails to read.
proof fn lemma_row_cells_prefix_err(row: Seq<char>, n: int)
    requires
        0 <= n <= row.len(),
        row_cells(row.subrange(0, n)) is Err,
    ensures
        row_cells(row) is Err,
    decreases row.len() - n,
{
    if n < row.len() {
        assert(row.subrange(0, n + 1).drop_last() =~= row.subrange(0, n));
        lemma_row_cells_prefix_err(row, n + 1);
    } else {
        assert(row.subrange(0, n) =~= row);
    }
}

/// The first character that fails in a prefix is the first that fails in
/// the row.
proof fn lemma_row_cells_first_err(row: Seq<char>, n: int)
    requires
        0 <= n <= row.len(),
        row_cells(row.subrange(0, n)) is Err,
    ensures
        row_cells(row) == row_cells(row.subrange(0, n)),
    decreases row.len() - n,
{
    if n < row.len() {
        assert(row.subrange(0, n + 1).drop_last() =~= row.subrange(0, n));
        lemma_row_cells_first_err(row, n + 1);
    } else {
        assert(row.subrange(0, n) =~= row);
    }
}

/// Once the rows up to `n` fail to read, all rows fail the same way.
proof fn lemma_rows_cells_err_sticks(rows: Seq<Seq<char>>, n: int, width: int)
    requires
        0 <= n <= rows.len(),
        rows_cells(rows.subrange(0, n), width) is Err,
    ensures
        rows_cells(rows, width) == rows_cells(rows.subrange(0, n), width),
    decreases rows.len() - n,
{
    if n < rows.len() {
        assert(rows.subrange(0, n + 1).drop_last() =~= rows.subrange(0, n));
        lemma_rows_cells_err_sticks(rows, n + 1, width);
    } else {
        assert(rows.subrange(0, n) =~= rows);
    }
}

/// Every kept row has characters.
proof fn lemma_nonempty_trimmed_rows(pieces: Seq<Seq<char>>)
    ensures
        forall|i: int|
            0 <= i < nonempty_trimmed(pieces).len() ==> #[trigger] nonempty_trimmed(pieces)[i].len() > 0,
    decreases pieces.len(),
{
    if pieces.len() > 0 {
        lemma_nonempty_trimmed_rows(pieces.drop_last());
        let prev = nonempty_trimmed(pieces.drop_last());
        assert forall|i: int|
            0 <= i < nonempty_trimmed(pieces).len() implies #[trigger] nonempty_trimmed(pieces)[i].len() > 0 by {
            if i < prev.len() {
                assert(nonempty_trimmed(pieces)[i] == prev[i]);
            }
        }
    }
}

/// The letters of the pieces that the legacy digits zero through seven
/// stand for, in order.
pub open spec fn legacy_letters() -> Seq<char> {
    seq!['I', 'J', 'S', 'O', 'Z', 'L', 'T', 'M']
}

/// Each legacy digit from zero to seven names the piece whose letter stands
/// at that place in `IJSOZLTM`; fifteen names none, the digits between the
/// single block.
pub proof fn law_legacy_digit_names(value: int)
    ensures
        0 <= value <= 7 ==> (spec_normalize_legacy_piece(value) matches Some(k) && spec_piece_name(k)
            == legacy_letters()[value]),
        value == 15 ==> spec_normalize_legacy_piece(value) is None,
        8 <= value <= 14 ==> spec_normalize_legacy_piece(value) == Some(Tetromino::Mono),
{
}

/// A run of piece digits from zero to seven reads as the pieces whose
/// letters the digits pick out of `IJSOZLTM`, in the same order.
pub proof fn law_legacy_queue_letters(digits: Seq<int>)
    requires
        forall|i: int| 0 <= i < digits.len() ==> 0 <= #[trigger] digits[i] <= 7,
    ensures
        legacy_pieces(digits).map_values(|k: Tetromino| spec_piece_name(k)) == digits.map_values(
            |d: int| legacy_letters()[d],
        ),
    decreases digits.len(),
{
    if digits.len() > 0 {
        let prefix = digits.drop_last();
        assert forall|i: int| 0 <= i < prefix.len() implies 0 <= #[trigger] prefix[i] <= 7 by {
            assert(prefix[i] == digits[i]);
        }
        law_legacy_queue_letters(prefix);
        law_legacy_digit_names(digits.last());
        assert(0 <= digits.last() <= 7);
        let k = spec_normalize_legacy_piece(digits.last())->0;
        assert(legacy_pieces(digits) == legacy_pieces(prefix).push(k));
        assert(digits.map_values(|d: int| legacy_letters()[d]) =~= prefix.map_values(
            |d: int| legacy_letters()[d],
        ).push(legacy_letters()[digits.last()]));
        assert(legacy_pieces(digits).map_values(|k: Tetromino| spec_piece_name(k)) =~= legacy_pieces(
            prefix,
        ).map_values(|k: Tetromino| spec_piece_name(k)).push(spec_piece_name(k)));
    } else {
        assert(legacy_pieces(digits).map_values(|k: Tetromino| spec_piece_name(k)) =~= digits.map_values(
            |d: int| legacy_letters()[d],
        ));
    }
}

} // verus!
