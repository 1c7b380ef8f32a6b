//! The static evaluator: material and placement, from White's point of view.

use crate::pieces_logic::{Piece, piece_at, Symbol};
use crate::position::grid;
use vstd::prelude::*;

verus! {

/// Placement bonus of a white pawn on each square, row 0 (rank 8) first.
pub const PAWN_TABLE: [i64; 64] = [
    0, 0, 0, 0, 0, 0, 0, 0,
    50, 50, 50, 50, 50, 50, 50, 50,
    10, 10, 20, 30, 30, 20, 10, 10,
    5, 5, 10, 25, 25, 10, 5, 5,
    0, 0, 0, 20, 20, 0, 0, 0,
    5, -5, -10, 0, 0, -10, -5, 5,
    5, 10, 10, -20, -20, 10, 10, 5,
    0, 0, 0, 0, 0, 0, 0, 0,
];

/// Placement bonus of a white knight.
pub const KNIGHT_TABLE: [i64; 64] = [
    -50, -40, -30, -30, -30, -30, -40, -50,
    -40, -20, 0, 0, 0, 0, -20, -40,
    -30, 0, 10, 15, 15, 10, 0, -30,
    -30, 5, 15, 20, 20, 15, 5, -30,
    -30, 0, 15, 20, 20, 15, 0, -30,
    -30, 5, 10, 15, 15, 10, 5, -30,
    -40, -20, 0, 5, 5, 0, -20, -40,
    -50, -40, -30, -30, -30, -30, -40, -50,
];

/// Placement bonus of a white bishop.
pub const BISHOP_TABLE: [i64; 64] = [
    -20, -10, -10, -10, -10, -10, -10, -20,
    -10, 0, 0, 0, 0, 0, 0, -10,
    -10, 0, 5, 10, 10, 5, 0, -10,
    -10, 5, 5, 10, 10, 5, 5, -10,
    -10, 0, 10, 10, 10, 10, 0, -10,
    -10, 10, 10, 10, 10, 10, 10, -10,
    -10, 5, 0, 0, 0, 0, 5, -10,
    -20, -10, -10, -10, -10, -10, -10, -20,
];

/// Placement bonus of a white rook.
pub const ROOK_TABLE: [i64; 64] = [
    0, 0, 0, 0, 0, 0, 0, 0,
    5, 10, 10, 10, 10, 10, 10, 5,
    -5, 0, 0, 0, 0, 0, 0, -5,
    -5, 0, 0, 0, 0, 0, 0, -5,
    -5, 0, 0, 0, 0, 0, 0, -5,
    -5, 0, 0, 0, 0, 0, 0, -5,
    -5, 0, 0, 0, 0, 0, 0, -5,
    0, 0, 0, 5, 5, 0, 0, 0,
];

/// Placement bonus of a white queen.
pub const QUEEN_TABLE: [i64; 64] = [
    -20, -10, -10, -5, -5, -10, -10, -20,
    -10, 0, 0, 0, 0, 0, 0, -10,
    -10, 0, 5, 5, 5, 5, 0, -10,
    -5, 0, 5, 5, 5, 5, 0, -5,
    0, 0, 5, 5, 5, 5, 0, -5,
    -10, 5, 5, 5, 5, 5, 0, -10,
    -10, 0, 5, 0, 0, 0, 0, -10,
    -20, -10, -10, -5, -5, -10, -10, -20,
];

/// Placement bonus of the white king.
pub const KING_TABLE: [i64; 64] = [
    -30, -40, -40, -50, -50, -40, -40, -30,
    -30, -40, -40, -50, -50, -40, -40, -30,
    -30, -40, -40, -50, -50, -40, -40, -30,
    -30, -40, -40, -50, -50, -40, -40, -30,
    -20, -30, -30, -40, -40, -30, -30, -20,
    -10, -20, -20, -20, -20, -20, -20, -10,
    20, 20, 0, 0, 0, 0, 20, 20,
    20, 30, 10, 0, 0, 10, 30, 20,
];

/// What a piece of the given kind is worth; the king is not counted.
pub open spec fn material(kind: Symbol) -> int {
    match kind {
        Symbol::Pawn => 100,
        Symbol::Knight => 320,
        Symbol::Bishop => 330,
        Symbol::Rook => 500,
        Symbol::Queen => 900,
        Symbol::King => 0,
        Symbol::Empty => 0,
    }
}

/// The placement bonus of a white piece of the given kind on the square with
/// row-major index `square`.
pub open spec fn bonus(kind: Symbol, square: int) -> int {
    match kind {
        Symbol::Pawn => PAWN_TABLE[square] as int,
        Symbol::Knight => KNIGHT_TABLE[square] as int,
        Symbol::Bishop => BISHOP_TABLE[square] as int,
        Symbol::Rook => ROOK_TABLE[square] as int,
        Symbol::Queen => QUEEN_TABLE[square] as int,
        Symbol::King => KING_TABLE[square] as int,
        Symbol::Empty => 0,
    }
}

/// The square that a black piece is scored on: the same column, the rows reversed.
pub open spec fn mirrored(square: int) -> int {
    8 * (7 - square / 8) + square % 8
}

/// What the piece on `square` adds to the score: material and placement,
/// counted for White and against Black.
pub open spec fn piece_score(p: Piece, square: int) -> int {
    if p.is_empty {
        0
    } else if p.color {
        material(p.symbol) + bonus(p.symbol, square)
    } else {
        -(material(p.symbol) + bonus(p.symbol, mirrored(square)))
    }
}

/// The score of the first `n` cells.
pub open spec fn score_upto(g: Seq<Piece>, n: int) -> int
    decreases n,
{
    if n <= 0 {
        0
    } else {
        score_upto(g, n - 1) + piece_score(g[n - 1], n - 1)
    }
}

/// The score of the position: positive favours White.
#[verifier::opaque]
pub open spec fn evaluation(g: Seq<Piece>) -> int {
    score_upto(g, 64)
}

fn placement_bonus(kind: Symbol, square: u8) -> (value: i64)
    requires
        square < 64,
    ensures
        value == bonus(kind, square as int),
        -50 <= value <= 50,
{
    let i = square as usize;
    match kind {
        Symbol::Pawn => PAWN_TABLE[i],
        Symbol::Knight => KNIGHT_TABLE[i],
        Symbol::Bishop => BISHOP_TABLE[i],
        Symbol::Rook => ROOK_TABLE[i],
        Symbol::Queen => QUEEN_TABLE[i],
        Symbol::King => KING_TABLE[i],
        Symbol::Empty => 0,
    }
}

fn material_of(kind: Symbol) -> (value: i64)
    ensures
        value == material(kind),
        0 <= value <= 900,
{
    match kind {
        Symbol::Pawn => 100,
        Symbol::Knight => 320,
        Symbol::Bishop => 330,
        Symbol::Rook => 500,
        Symbol::Queen => 900,
        Symbol::King => 0,
        Symbol::Empty => 0,
    }
}

/// The score of `piece` standing on the square with row-major index `square`.
pub fn score_piece(piece: &Piece, square: u8) -> (value: i64)
    requires
        square < 64,
    ensures
        value == piece_score(*piece, square as int),
        -950 <= value <= 950,
{
    if piece.is_empty {
        0
    } else if piece.color {
        material_of(piece.symbol) + placement_bonus(piece.symbol, square)
    } else {
        let flipped = 8 * (7 - square / 8) + square % 8;
        -(material_of(piece.symbol) + placement_bonus(piece.symbol, flipped))
    }
}

/// The static evaluation of the position: the scores of White's pieces less
/// those of Black's.
pub fn evaluate(board: &[[Piece; 8]; 8]) -> (score: i64)
    ensures
        score == evaluation(grid(*board)),
        -60800 <= score <= 60800,
{
    proof {
        reveal(evaluation);
    }
    let mut evaluation: i64 = 0;
    let mut i: u8 = 0;
    while i < 64
        invariant
            i <= 64,
            evaluation == score_upto(grid(*board), i as int),
            -950 * i <= evaluation <= 950 * i,
        decreases 64 - i,
    {
        let piece = piece_at(board, i / 8, i % 8);
        evaluation = evaluation + score_piece(&piece, i);
        i += 1;
    }
    evaluation
}

} // verus!
