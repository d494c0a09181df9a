use vstd::prelude::*;

use crate::game::piece::{Tetromino, spec_piece_name};
use crate::game::text::{is_white, is_white_char, str_chars};

verus! {

/// Why a static queue text could not be read.
#[derive(Debug, Clone, PartialEq, Eq, Structural)]
pub enum StaticQueueError {
    InvalidPiece(char),
}

/// The ASCII upper-case form of a character.
pub open spec fn upper_ascii(ch: char) -> char {
    if 'a' <= ch <= 'z' {
        ((ch as int) - 32) as char
    } else {
        ch
    }
}

/// The piece a static queue letter names (upper or lower case), or the
/// upper-cased character in the error.
pub open spec fn spec_parse_piece(ch: char) -> Result<Tetromino, StaticQueueError> {
    let u = upper_ascii(ch);
    if u == 'I' {
        Ok(Tetromino::I)
    } else if u == 'J' {
        Ok(Tetromino::J)
    } else if u == 'S' {
        Ok(Tetromino::S)
    } else if u == 'O' {
        Ok(Tetromino::O)
    } else if u == 'Z' {
        Ok(Tetromino::Z)
    } else if u == 'L' {
        Ok(Tetromino::L)
    } else if u == 'T' {
        Ok(Tetromino::T)
    } else {
        Err(StaticQueueError::InvalidPiece(u))
    }
}

/// The upper-case form of an ASCII letter; other characters unchanged.
pub fn to_upper_ascii(ch: char) -> (r: char)
    ensures
        r == upper_ascii(ch),
{
    if 'a' <= ch && ch <= 'z' {
        ((ch as u32) - 32) as u8 as char
    } else {
        ch
    }
}

/// Reads one piece letter.
fn parse_piece(ch: char) -> (r: Result<Tetromino, StaticQueueError>)
    ensures
        r == spec_parse_piece(ch),
{
    match to_upper_ascii(ch) {
        'I' => Ok(Tetromino::I),
        'J' => Ok(Tetromino::J),
        'S' => Ok(Tetromino::S),
        'O' => Ok(Tetromino::O),
        'Z' => Ok(Tetromino::Z),
        'L' => Ok(Tetromino::L),
        'T' => Ok(Tetromino::T),
        other => Err(StaticQueueError::InvalidPiece(other)),
    }
}

/// The pieces named by the letters of `raw`, white space skipped, or the
/// error of the first character that names no piece.
pub open spec fn spec_parse_static_queue(raw: Seq<char>) -> Result<Seq<Tetromino>, StaticQueueError>
    decreases raw.len(),
{
    if raw.len() == 0 {
        Ok(Seq::empty())
    } else {
        match spec_parse_static_queue(raw.drop_last()) {
            Err(e) => Err(e),
            Ok(pieces) => if is_white(raw.last()) {
                Ok(pieces)
            } else {
                match spec_parse_piece(raw.last()) {
                    Ok(p) => Ok(pieces.push(p)),
                    Err(e) => Err(e),
                }
            },
        }
    }
}

/// Once a prefix fails, the whole text fails the same way.
proof fn lemma_parse_error_sticks(raw: Seq<char>, n: int)
    requires
        0 <= n <= raw.len(),
        spec_parse_static_queue(raw.subrange(0, n)) is Err,
    ensures
        spec_parse_static_queue(raw) == spec_parse_static_queue(raw.subrange(0, n)),
    decreases raw.len() - n,
{
    if n < raw.len() {
        assert(raw.subrange(0, n + 1).drop_last() =~= raw.subrange(0, n));
        lemma_parse_error_sticks(raw, n + 1);
    } else {
        assert(raw.subrange(0, n) =~= raw);
    }
}

/// Reads a static queue text: piece letters, upper or lower case, with any
/// white space between them.
pub fn parse_static_queue(raw: &str) -> (r: Result<Vec<Tetromino>, StaticQueueError>)
    ensures
        match spec_parse_static_queue(raw@) {
            Ok(pieces) => r matches Ok(v) && v@ == pieces,
            Err(e) => r == Err::<Vec<Tetromino>, StaticQueueError>(e),
        },
{
    let chars = str_chars(raw);
    let mut pieces: Vec<Tetromino> = Vec::new();
    let mut i: usize = 0;
    while i < chars.len()
        invariant
            chars@ == raw@,
            i <= chars@.len(),
            spec_parse_static_queue(raw@.subrange(0, i as int)) == Ok::<Seq<Tetromino>, StaticQueueError>(
                pieces@,
            ),
        decreases chars@.len() - i,
    {
        proof {
            assert(raw@.subrange(0, i + 1).drop_last() =~= raw@.subrange(0, i as int));
        }
        let ch = chars[i];
        if !is_white_char(ch) {
            match parse_piece(ch) {
                Ok(piece) => pieces.push(piece),
                Err(e) => {
                    proof {
                        lemma_parse_error_sticks(raw@, i + 1);
                    }
                    return Err(e);
                },
            }
        }
        i += 1;
    }
    proof {
        assert(raw@.subrange(0, raw@.len() as int) =~= raw@);
    }
    Ok(pieces)
}

/// The letters of the seven pieces a static queue can name.
pub open spec fn queue_letter(c: char) -> bool {
    c == 'I' || c == 'J' || c == 'S' || c == 'O' || c == 'Z' || c == 'L' || c == 'T'
}

/// A letter reads as the piece of that name, in either case; any other
/// character is refused with its upper-case form.
pub proof fn law_parse_piece_by_name(ch: char)
    ensures
        queue_letter(upper_ascii(ch)) ==> (spec_parse_piece(ch) matches Ok(k) && spec_piece_name(k)
            == upper_ascii(ch)),
        !queue_letter(upper_ascii(ch)) ==> spec_parse_piece(ch) == Err::<Tetromino, StaticQueueError>(
            StaticQueueError::InvalidPiece(upper_ascii(ch)),
        ),
{
}

/// The letters of a text, white space left out, in upper case.
pub open spec fn queue_letters(raw: Seq<char>) -> Seq<char>
    decreases raw.len(),
{
    if raw.len() == 0 {
        Seq::empty()
    } else if is_white(raw.last()) {
        queue_letters(raw.drop_last())
    } else {
        queue_letters(raw.drop_last()).push(upper_ascii(raw.last()))
    }
}

/// A static queue that reads names its pieces by the letters of the text:
/// the names of the pieces are the text's letters in upper case, white
/// space left out, in order.
pub proof fn law_static_queue_names(raw: Seq<char>)
    ensures
        spec_parse_static_queue(raw) matches Ok(pieces) ==> pieces.map_values(
            |k: Tetromino| spec_piece_name(k),
        ) == queue_letters(raw),
    decreases raw.len(),
{
    if raw.len() > 0 {
        law_static_queue_names(raw.drop_last());
        law_parse_piece_by_name(raw.last());
        if let Ok(pieces) = spec_parse_static_queue(raw) {
            let prev = spec_parse_static_queue(raw.drop_last())->Ok_0;
            if is_white(raw.last()) {
                assert(pieces == prev);
            } else {
                assert(pieces.map_values(|k: Tetromino| spec_piece_name(k)) =~= prev.map_values(
                    |k: Tetromino| spec_piece_name(k),
                ).push(upper_ascii(raw.last())));
            }
        }
    } else {
        if let Ok(pieces) = spec_parse_static_queue(raw) {
            assert(pieces.map_values(|k: Tetromino| spec_piece_name(k)) =~= queue_letters(raw));
        }
    }
}

} // verus!
