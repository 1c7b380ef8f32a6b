//! Pieces, moves and the low-level board editor.

pub use crate::attack::{get_square_of_king, is_king_in_check, is_piece_pinned};
pub use crate::evaluation::evaluate;
pub use crate::moves::{
    get_castling_moves, get_legal_long_ray_moves, get_legal_moves_for_bishop,
    get_legal_moves_for_king, get_legal_moves_for_knight, get_legal_moves_for_pawn,
    get_legal_moves_for_queen, get_legal_moves_for_rook,
};
pub use crate::notation::universal_chess_interface_to_move;
pub use crate::search::negamax;
pub use crate::rules::{
    find_all_legal_moves_for_a_piece, get_all_legal_moves_for_this_turn, is_checkmate,
    is_insufficient_material, is_stalemate,
};
use crate::position::{after_move, applicable, cell, empty_piece, grid, placed};
use vstd::prelude::*;

verus! {

/// The kind of a piece; `Empty` for the sentinel on an unoccupied square.
#[derive(Debug, PartialEq, Eq, PartialOrd, Ord, Clone, Copy, Structural)]
pub enum Symbol {
    King,
    Queen,
    Rook,
    Bishop,
    Knight,
    Pawn,
    Empty,
}

/// What a move promotes to; `NoPromotion` for a move that does not promote.
#[derive(Debug, PartialEq, Eq, PartialOrd, Ord, Clone, Copy, Structural)]
pub enum Promotion {
    Queen,
    Rook,
    Bishop,
    Knight,
    NoPromotion,
}

/// One cell of the board. `color` is `true` for White and `false` for Black;
/// an empty cell has `is_empty` set and carries [`Symbol::Empty`].
#[derive(Clone, Copy, Debug, PartialEq, Eq, PartialOrd, Ord)]
pub struct Piece {
    pub color: bool,
    pub symbol: Symbol,
    pub has_moved: bool,
    pub value: i64,
    pub is_empty: bool,
    pub current_square: (u8, u8),
}

/// A move is a plain value; nothing changes until it is applied.
#[derive(Debug, PartialEq, Eq, PartialOrd, Ord, Clone, Copy)]
pub struct Move {
    pub current_square: (u8, u8),
    pub destination_square: (u8, u8),
    pub castle: bool,
    pub promotion: Promotion,
}

/// The piece on `(row, col)`.
pub(crate) fn piece_at(board: &[[Piece; 8]; 8], row: u8, col: u8) -> (piece: Piece)
    requires
        row < 8,
        col < 8,
    ensures
        piece == cell(grid(*board), row as int, col as int),
{
    board[row as usize][col as usize]
}

/// Overwrites the cell on `square`.
pub(crate) fn put_piece(board: &mut [[Piece; 8]; 8], square: &(u8, u8), piece: Piece)
    requires
        square.0 < 8,
        square.1 < 8,
    ensures
        grid(*final(board)) == grid(*old(board)).update(8 * square.0 + square.1, piece),
{
    board[square.0 as usize][square.1 as usize] = piece;
}

/// The sentinel for the unoccupied square `square`.
pub fn create_empty_piece(square: &(u8, u8)) -> (piece: Piece)
    ensures
        piece == empty_piece(square.0 as int, square.1 as int),
{
    Piece {
        color: false,
        symbol: Symbol::Empty,
        has_moved: false,
        value: 0,
        is_empty: true,
        current_square: *square,
    }
}

/// Puts an unmoved pawn of the given colour on `square`, whatever stood there.
pub fn place_pawn_on_board(board: &mut [[Piece; 8]; 8], square: &(u8, u8), color: bool)
    requires
        square.0 < 8,
        square.1 < 8,
    ensures
        grid(*final(board)) == grid(*old(board)).update(
            8 * square.0 + square.1,
            placed(Symbol::Pawn, color, square.0 as int, square.1 as int),
        ),
{
    put_piece(board, square, Piece {
        color: color,
        symbol: Symbol::Pawn,
        has_moved: false,
        value: 100,
        is_empty: false,
        current_square: *square,
    });
}

/// Puts an unmoved bishop of the given colour on `square`, whatever stood there.
pub fn place_bishop_on_board(board: &mut [[Piece; 8]; 8], square: &(u8, u8), color: bool)
    requires
        square.0 < 8,
        square.1 < 8,
    ensures
        grid(*final(board)) == grid(*old(board)).update(
            8 * square.0 + square.1,
            placed(Symbol::Bishop, color, square.0 as int, square.1 as int),
        ),
{
    put_piece(board, square, Piece {
        color: color,
        symbol: Symbol::Bishop,
        has_moved: false,
        value: 330,
        is_empty: false,
        current_square: *square,
    });
}

/// Puts an unmoved knight of the given colour on `square`, whatever stood there.
pub fn place_knight_on_board(board: &mut [[Piece; 8]; 8], square: &(u8, u8), color: bool)
    requires
        square.0 < 8,
        square.1 < 8,
    ensures
        grid(*final(board)) == grid(*old(board)).update(
            8 * square.0 + square.1,
            placed(Symbol::Knight, color, square.0 as int, square.1 as int),
        ),
{
    put_piece(board, square, Piece {
        color: color,
        symbol: Symbol::Knight,
        has_moved: false,
        value: 320,
        is_empty: false,
        current_square: *square,
    });
}

/// Puts an unmoved rook of the given colour on `square`, whatever stood there.
pub fn place_rook_on_board(board: &mut [[Piece; 8]; 8], square: &(u8, u8), color: bool)
    requires
        square.0 < 8,
        square.1 < 8,
    ensures
        grid(*final(board)) == grid(*old(board)).update(
            8 * square.0 + square.1,
            placed(Symbol::Rook, color, square.0 as int, square.1 as int),
        ),
{
    put_piece(board, square, Piece {
        color: color,
        symbol: Symbol::Rook,
        has_moved: false,
        value: 500,
        is_empty: false,
        current_square: *square,
    });
}

/// Puts an unmoved queen of the given colour on `square`, whatever stood there.
pub fn place_queen_on_board(board: &mut [[Piece; 8]; 8], square: &(u8, u8), color: bool)
    requires
        square.0 < 8,
        square.1 < 8,
    ensures
        grid(*final(board)) == grid(*old(board)).update(
            8 * square.0 + square.1,
            placed(Symbol::Queen, color, square.0 as int, square.1 as int),
        ),
{
    put_piece(board, square, Piece {
        color: color,
        symbol: Symbol::Queen,
        has_moved: false,
        value: 900,
        is_empty: false,
        current_square: *square,
    });
}

/// Puts an unmoved king of the given colour on `square`, whatever stood there.
pub fn place_king_on_board(board: &mut [[Piece; 8]; 8], square: &(u8, u8), color: bool)
    requires
        square.0 < 8,
        square.1 < 8,
    ensures
        grid(*final(board)) == grid(*old(board)).update(
            8 * square.0 + square.1,
            placed(Symbol::King, color, square.0 as int, square.1 as int),
        ),
{
    put_piece(board, square, Piece {
        color: color,
        symbol: Symbol::King,
        has_moved: false,
        value: 10000,
        is_empty: false,
        current_square: *square,
    });
}

/// Clears `square`.
pub fn make_square_empty(board: &mut [[Piece; 8]; 8], square: &(u8, u8))
    requires
        square.0 < 8,
        square.1 < 8,
    ensures
        grid(*final(board)) == grid(*old(board)).update(
            8 * square.0 + square.1,
            empty_piece(square.0 as int, square.1 as int),
        ),
{
    let piece = create_empty_piece(square);
    put_piece(board, square, piece);
}

/// Whether `move_` can be applied: its squares lie on the board, and so does
/// the square beside the king that a castle move puts the rook on.
pub fn can_apply(move_: &Move) -> (fits: bool)
    ensures
        fits == applicable(*move_),
{
    let from = move_.current_square;
    let to = move_.destination_square;
    from.0 < 8 && from.1 < 8 && to.0 < 8 && to.1 < 8 && (!move_.castle || to.1 > from.1 || from.1
        >= 1)
}

/// Applies `move_` to the board without asking whether it is legal: the piece
/// on the source square goes to the destination, a castle move also brings the
/// rook over, and a promotion replaces the piece that arrives.
pub fn make_move(board: &mut [[Piece; 8]; 8], move_: &Move)
    requires
        applicable(*move_),
    ensures
        grid(*final(board)) == after_move(grid(*old(board)), *move_),
{
    proof {
        reveal(after_move);
    }
    let cur_sq = move_.current_square;
    let des_sq = move_.destination_square;
    let mover = piece_at(board, cur_sq.0, cur_sq.1);

    put_piece(board, &des_sq, Piece {
        color: mover.color,
        symbol: mover.symbol,
        has_moved: true,
        value: mover.value,
        is_empty: mover.is_empty,
        current_square: des_sq,
    });
    make_square_empty(board, &cur_sq);

    if move_.castle {
        let kingside = des_sq.1 > cur_sq.1;
        let rook_side: u8 = if kingside { 7 } else { 0 };
        let landing: u8 = if kingside { cur_sq.1 + 1 } else { cur_sq.1 - 1 };
        let rook = piece_at(board, cur_sq.0, rook_side);
        put_piece(board, &(cur_sq.0, landing), Piece {
            color: rook.color,
            symbol: rook.symbol,
            has_moved: true,
            value: rook.value,
            is_empty: rook.is_empty,
            current_square: (cur_sq.0, landing),
        });
        make_square_empty(board, &(cur_sq.0, rook_side));
    }

    let arrival: Option<(Symbol, i64)> = match move_.promotion {
        Promotion::Queen => Some((Symbol::Queen, 900)),
        Promotion::Rook => Some((Symbol::Rook, 500)),
        Promotion::Bishop => Some((Symbol::Bishop, 330)),
        Promotion::Knight => Some((Symbol::Knight, 320)),
        Promotion::NoPromotion => None,
    };
    if let Some((kind, value)) = arrival {
        put_piece(board, &des_sq, Piece {
            color: mover.color,
            symbol: kind,
            has_moved: true,
            value: value,
            is_empty: false,
            current_square: des_sq,
        });
    }
}

/// Row and column of the square with the given row-major index.
pub fn get_2d_location_of_board_square(square: &u8) -> (location: (u8, u8))
    ensures
        location.0 == *square / 8,
        location.1 == *square % 8,
{
    (*square / 8, *square % 8)
}

} // verus!
