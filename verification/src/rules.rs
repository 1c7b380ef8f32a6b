//! All legal moves of a side, and the states that end a game.

use crate::attack::{has_king, in_check, is_king_in_check};
use crate::moves::{
    all_safe, bishop_moves, get_legal_moves_for_bishop, get_legal_moves_for_king,
    get_legal_moves_for_knight, get_legal_moves_for_pawn, get_legal_moves_for_queen,
    get_legal_moves_for_rook, king_moves, knight_moves, pawn_moves, queen_moves, rook_moves,
};
use crate::pieces_logic::{Move, Piece, piece_at, Symbol};
use crate::position::{cell, grid};
use vstd::prelude::*;

verus! {

/// The legal moves of whatever stands on `(r, c)`, by its kind.
pub open spec fn piece_moves(g: Seq<Piece>, r: int, c: int) -> Seq<Move> {
    match cell(g, r, c).symbol {
        Symbol::Pawn => pawn_moves(g, r, c),
        Symbol::Bishop => bishop_moves(g, r, c),
        Symbol::Knight => knight_moves(g, r, c),
        Symbol::Rook => rook_moves(g, r, c),
        Symbol::Queen => queen_moves(g, r, c),
        Symbol::King => king_moves(g, r, c),
        Symbol::Empty => Seq::empty(),
    }
}

/// The cell holds a piece of the given side.
pub open spec fn owned_by(p: Piece, side: bool) -> bool {
    !p.is_empty && p.color == side
}

/// The legal moves of the pieces of `side` on the first `n` cells, cell by cell.
pub open spec fn moves_upto(g: Seq<Piece>, side: bool, n: int) -> Seq<Move>
    decreases n,
{
    if n <= 0 {
        Seq::empty()
    } else if owned_by(g[n - 1], side) {
        moves_upto(g, side, n - 1) + piece_moves(g, (n - 1) / 8, (n - 1) % 8)
    } else {
        moves_upto(g, side, n - 1)
    }
}

/// The legal moves of `side`: those of each of its pieces, in row-major order of the pieces.
#[verifier::opaque]
pub open spec fn legal_moves(g: Seq<Piece>, side: bool) -> Seq<Move> {
    moves_upto(g, side, 64)
}

/// `side` is in check and has no legal move.
pub open spec fn checkmate(g: Seq<Piece>, side: bool) -> bool {
    in_check(g, side) && legal_moves(g, side).len() == 0
}

/// `side` is not in check and has no legal move.
pub open spec fn stalemate(g: Seq<Piece>, side: bool) -> bool {
    !in_check(g, side) && legal_moves(g, side).len() == 0
}

/// A pawn, a rook or a queen: material that can force mate.
pub open spec fn is_heavy(p: Piece) -> bool {
    !p.is_empty && (p.symbol == Symbol::Pawn || p.symbol == Symbol::Rook || p.symbol
        == Symbol::Queen)
}

/// A bishop or a knight of the given colour.
pub open spec fn is_minor(p: Piece, color: bool) -> bool {
    !p.is_empty && p.color == color && (p.symbol == Symbol::Bishop || p.symbol == Symbol::Knight)
}

/// How many bishops and knights of `color` stand on the first `n` cells.
pub open spec fn minor_count(g: Seq<Piece>, color: bool, n: int) -> int
    decreases n,
{
    if n <= 0 {
        0
    } else if is_minor(g[n - 1], color) {
        minor_count(g, color, n - 1) + 1
    } else {
        minor_count(g, color, n - 1)
    }
}

/// Neither side can force mate: no pawn, rook or queen is left, and each side
/// has fewer than two bishops and knights.
pub open spec fn insufficient_material(g: Seq<Piece>) -> bool {
    &&& forall|i: int| 0 <= i < 64 ==> !is_heavy(#[trigger] g[i])
    &&& minor_count(g, true, 64) < 2
    &&& minor_count(g, false, 64) < 2
}

/// The legal moves of the piece on `square`; none for an empty square.
pub fn find_all_legal_moves_for_a_piece(board: &[[Piece; 8]; 8], square: &(u8, u8)) -> (moves: Vec<
    Move,
>)
    requires
        square.0 < 8,
        square.1 < 8,
        cell(grid(*board), square.0 as int, square.1 as int).symbol != Symbol::Empty ==> has_king(
            grid(*board),
            cell(grid(*board), square.0 as int, square.1 as int).color,
        ),
    ensures
        moves@ == piece_moves(grid(*board), square.0 as int, square.1 as int),
        !cell(grid(*board), square.0 as int, square.1 as int).is_empty ==> all_safe(
            grid(*board),
            moves@,
        ),
{
    match piece_at(board, square.0, square.1).symbol {
        Symbol::Pawn => get_legal_moves_for_pawn(board, square),
        Symbol::Bishop => get_legal_moves_for_bishop(board, square),
        Symbol::Knight => get_legal_moves_for_knight(board, square),
        Symbol::Rook => get_legal_moves_for_rook(board, square),
        Symbol::Queen => get_legal_moves_for_queen(board, square),
        Symbol::King => get_legal_moves_for_king(board, square),
        Symbol::Empty => Vec::new(),
    }
}

/// The legal moves of `side`.
pub fn get_all_legal_moves_for_this_turn(board: &[[Piece; 8]; 8], side: bool) -> (moves: Vec<Move>)
    requires
        has_king(grid(*board), side),
    ensures
        moves@ == legal_moves(grid(*board), side),
        all_safe(grid(*board), moves@),
{
    proof {
        reveal(legal_moves);
    }
    let mut output: Vec<Move> = Vec::new();
    let mut i: u8 = 0;
    while i < 64
        invariant
            i <= 64,
            has_king(grid(*board), side),
            output@ == moves_upto(grid(*board), side, i as int),
            all_safe(grid(*board), output@),
        decreases 64 - i,
    {
        let board_square = piece_at(board, i / 8, i % 8);
        if board_square.color == side && !board_square.is_empty {
            let mut found = find_all_legal_moves_for_a_piece(board, &(i / 8, i % 8));
            output.append(&mut found);
        }
        i += 1;
    }
    output
}

/// The side is in check and has no legal move.
pub fn is_checkmate(board: &[[Piece; 8]; 8], side: bool) -> (mate: bool)
    requires
        has_king(grid(*board), side),
    ensures
        mate == checkmate(grid(*board), side),
{
    is_king_in_check(board, side) && get_all_legal_moves_for_this_turn(board, side).len() == 0
}

/// The side is not in check and has no legal move.
pub fn is_stalemate(board: &[[Piece; 8]; 8], side: bool) -> (stale: bool)
    requires
        has_king(grid(*board), side),
    ensures
        stale == stalemate(grid(*board), side),
{
    !is_king_in_check(board, side) && get_all_legal_moves_for_this_turn(board, side).len() == 0
}

/// Whether neither side has the material to force mate.
pub fn is_insufficient_material(board: &[[Piece; 8]; 8]) -> (drawn: bool)
    ensures
        drawn == insufficient_material(grid(*board)),
{
    let mut white_counts: u8 = 0;
    let mut black_counts: u8 = 0;
    let mut i: u8 = 0;
    while i < 64
        invariant
            i <= 64,
            forall|k: int| 0 <= k < i ==> !is_heavy(#[trigger] grid(*board)[k]),
            white_counts == minor_count(grid(*board), true, i as int),
            black_counts == minor_count(grid(*board), false, i as int),
            white_counts <= i,
            black_counts <= i,
        decreases 64 - i,
    {
        let piece = piece_at(board, i / 8, i % 8);
        if !piece.is_empty {
            if piece.symbol == Symbol::Pawn || piece.symbol == Symbol::Rook || piece.symbol
                == Symbol::Queen {
                return false;
            }
            if piece.symbol == Symbol::Bishop || piece.symbol == Symbol::Knight {
                if piece.color {
                    white_counts += 1;
                } else {
                    black_counts += 1;
                }
            }
        }
        i += 1;
    }
    white_counts < 2 && black_counts < 2
}

} // verus!
