//! Reading a move in coordinate notation, such as `e2e4` or `a7a8q`.

use crate::moves::last_rank;
use crate::pieces_logic::{Move, Piece, piece_at, Promotion, Symbol};
use crate::position::{cell, grid};
use vstd::prelude::*;
use vstd::string::*;

verus! {

/// The column that a file letter names.
pub open spec fn column_of(ch: char) -> Option<u8> {
    if ch == 'a' {
        Some(0u8)
    } else if ch == 'b' {
        Some(1u8)
    } else if ch == 'c' {
        Some(2u8)
    } else if ch == 'd' {
        Some(3u8)
    } else if ch == 'e' {
        Some(4u8)
    } else if ch == 'f' {
        Some(5u8)
    } else if ch == 'g' {
        Some(6u8)
    } else if ch == 'h' {
        Some(7u8)
    } else {
        None
    }
}

/// The row that a rank digit names: rank 1 is row 7 and rank 8 is row 0.
pub open spec fn row_of(ch: char) -> Option<u8> {
    if ch == '1' {
        Some(7u8)
    } else if ch == '2' {
        Some(6u8)
    } else if ch == '3' {
        Some(5u8)
    } else if ch == '4' {
        Some(4u8)
    } else if ch == '5' {
        Some(3u8)
    } else if ch == '6' {
        Some(2u8)
    } else if ch == '7' {
        Some(1u8)
    } else if ch == '8' {
        Some(0u8)
    } else {
        None
    }
}

/// The promotion that a letter names.
pub open spec fn promotion_of(ch: char) -> Option<Promotion> {
    if ch == 'q' {
        Some(Promotion::Queen)
    } else if ch == 'r' {
        Some(Promotion::Rook)
    } else if ch == 'b' {
        Some(Promotion::Bishop)
    } else if ch == 'n' {
        Some(Promotion::Knight)
    } else {
        None
    }
}

/// The message for a text of the wrong length.
pub open spec fn wrong_length() -> Seq<char> {
    "Incorrect LENGTH! -> 4 or 5 characters"@
}

/// The message for a first character that is no file letter.
pub open spec fn wrong_from_column() -> Seq<char> {
    "Incorrect FROM Column! -> a-h"@
}

/// The message for a second character that is no rank digit.
pub open spec fn wrong_from_row() -> Seq<char> {
    "Incorrect FROM Row! -> 1-8"@
}

/// The message for a third character that is no file letter.
pub open spec fn wrong_to_column() -> Seq<char> {
    "Incorrect TO Column! -> a-h"@
}

/// The message for a fourth character that is no rank digit.
pub open spec fn wrong_to_row() -> Seq<char> {
    "Incorrect TO Row! -> 1-8"@
}

/// The message for a fifth character that names no promotion.
pub open spec fn wrong_promotion() -> Seq<char> {
    "Incorrect PROMOTION! -> q/r/b/n"@
}

/// The message for a promoting move without a promotion letter.
pub open spec fn missing_promotion() -> Seq<char> {
    "Ensure Proper Promotion Notation -> a1a2q"@
}

/// The message for a promotion letter on a move that does not promote.
pub open spec fn unexpected_promotion() -> Seq<char> {
    "Unexpected PROMOTION! -> only a pawn reaching the last rank promotes"@
}

/// The move from `from` to `to` on `g` promotes: a pawn reaches the last rank of its colour.
pub open spec fn reaches_last_rank(g: Seq<Piece>, from: (u8, u8), to: (u8, u8)) -> bool {
    let mover = cell(g, from.0 as int, from.1 as int);
    mover.symbol == Symbol::Pawn && to.0 == last_rank(mover.color)
}

/// The move from `from` to `to` on `g` is read as castling: a king goes two columns aside.
pub open spec fn reads_as_castle(g: Seq<Piece>, from: (u8, u8), to: (u8, u8)) -> bool {
    cell(g, from.0 as int, from.1 as int).symbol == Symbol::King && (from.1 - to.1 == 2 || to.1
        - from.1 == 2)
}

/// What the text `s` means on the position `g`: the move, or the message of
/// the first rule that the text breaks.
pub open spec fn parse_uci(g: Seq<Piece>, s: Seq<char>) -> Result<Move, Seq<char>> {
    if s.len() != 4 && s.len() != 5 {
        Err(wrong_length())
    } else if column_of(s[0]) is None {
        Err(wrong_from_column())
    } else if row_of(s[1]) is None {
        Err(wrong_from_row())
    } else if column_of(s[2]) is None {
        Err(wrong_to_column())
    } else if row_of(s[3]) is None {
        Err(wrong_to_row())
    } else {
        let from = (row_of(s[1])->0, column_of(s[0])->0);
        let to = (row_of(s[3])->0, column_of(s[2])->0);
        let castle = reads_as_castle(g, from, to);
        if reaches_last_rank(g, from, to) {
            if s.len() != 5 {
                Err(missing_promotion())
            } else if promotion_of(s[4]) is None {
                Err(wrong_promotion())
            } else {
                Ok(
                    Move {
                        current_square: from,
                        destination_square: to,
                        castle,
                        promotion: promotion_of(s[4])->0,
                    },
                )
            }
        } else if s.len() == 5 {
            Err(unexpected_promotion())
        } else {
            Ok(
                Move {
                    current_square: from,
                    destination_square: to,
                    castle,
                    promotion: Promotion::NoPromotion,
                },
            )
        }
    }
}

fn read_column(ch: char) -> (col: Option<u8>)
    ensures
        col == column_of(ch),
        col matches Some(c) ==> c < 8,
{
    match ch {
        'a' => Some(0),
        'b' => Some(1),
        'c' => Some(2),
        'd' => Some(3),
        'e' => Some(4),
        'f' => Some(5),
        'g' => Some(6),
        'h' => Some(7),
        _ => None,
    }
}

fn read_row(ch: char) -> (row: Option<u8>)
    ensures
        row == row_of(ch),
        row matches Some(r) ==> r < 8,
{
    match ch {
        '1' => Some(7),
        '2' => Some(6),
        '3' => Some(5),
        '4' => Some(4),
        '5' => Some(3),
        '6' => Some(2),
        '7' => Some(1),
        '8' => Some(0),
        _ => None,
    }
}

fn read_promotion(ch: char) -> (kind: Option<Promotion>)
    ensures
        kind == promotion_of(ch),
{
    match ch {
        'q' => Some(Promotion::Queen),
        'r' => Some(Promotion::Rook),
        'b' => Some(Promotion::Bishop),
        'n' => Some(Promotion::Knight),
        _ => None,
    }
}

/// Reads a move of four or five characters: source file and rank, destination
/// file and rank, and a promotion letter exactly when a pawn reaches its last
/// rank. A king that goes two columns aside is read as castling. The move is
/// not checked for legality.
pub fn universal_chess_interface_to_move(board: &[[Piece; 8]; 8], uci: String) -> (result: Result<
    Move,
    &'static str,
>)
    ensures
        match result {
            Ok(m) => parse_uci(grid(*board), uci@) == Ok::<Move, Seq<char>>(m),
            Err(message) => parse_uci(grid(*board), uci@) == Err::<Move, Seq<char>>(message@),
        },
{
    let text = uci.as_str();
    let length = text.unicode_len();
    if length != 4 && length != 5 {
        return Err("Incorrect LENGTH! -> 4 or 5 characters");
    }
    let from_col = match read_column(text.get_char(0)) {
        Some(col) => col,
        None => { return Err("Incorrect FROM Column! -> a-h"); },
    };
    let from_row = match read_row(text.get_char(1)) {
        Some(row) => row,
        None => { return Err("Incorrect FROM Row! -> 1-8"); },
    };
    let to_col = match read_column(text.get_char(2)) {
        Some(col) => col,
        None => { return Err("Incorrect TO Column! -> a-h"); },
    };
    let to_row = match read_row(text.get_char(3)) {
        Some(row) => row,
        None => { return Err("Incorrect TO Row! -> 1-8"); },
    };
    let mut temp_move: Move = Move {
        current_square: (from_row, from_col),
        destination_square: (to_row, to_col),
        castle: false,
        promotion: Promotion::NoPromotion,
    };
    let mover = piece_at(board, from_row, from_col);
    if mover.symbol == Symbol::King {
        if (from_col >= to_col && from_col - to_col == 2) || (to_col >= from_col && to_col
            - from_col == 2) {
            temp_move.castle = true;
        }
    }
    let rank: u8 = if mover.color { 0 } else { 7 };
    if mover.symbol == Symbol::Pawn && to_row == rank {
        if length != 5 {
            return Err("Ensure Proper Promotion Notation -> a1a2q");
        }
        match read_promotion(text.get_char(4)) {
            Some(kind) => { temp_move.promotion = kind; },
            None => { return Err("Incorrect PROMOTION! -> q/r/b/n"); },
        }
    } else if length == 5 {
        return Err("Unexpected PROMOTION! -> only a pawn reaching the last rank promotes");
    }
    Ok(temp_move)
}

} // verus!
