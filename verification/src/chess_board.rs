//! Whole-board constructors and the letter that stands for a piece.

use crate::pieces_logic::{
    make_square_empty, Piece, place_bishop_on_board, place_king_on_board, place_knight_on_board,
    place_pawn_on_board, place_queen_on_board, place_rook_on_board, Symbol,
};
use crate::pieces_logic::create_empty_piece;
use crate::position::{empty_grid, empty_piece, grid, placed};
use vstd::prelude::*;

verus! {

/// The kind of piece that starts on column `c` of a back row.
pub open spec fn back_row_kind(c: int) -> Symbol {
    if c == 0 || c == 7 {
        Symbol::Rook
    } else if c == 1 || c == 6 {
        Symbol::Knight
    } else if c == 2 || c == 5 {
        Symbol::Bishop
    } else if c == 3 {
        Symbol::Queen
    } else {
        Symbol::King
    }
}

/// What stands on `(r, c)` at the start of a game: Black on rows 0 and 1,
/// White on rows 6 and 7.
pub open spec fn initial_cell(r: int, c: int) -> Piece {
    if r == 0 {
        placed(back_row_kind(c), false, r, c)
    } else if r == 1 {
        placed(Symbol::Pawn, false, r, c)
    } else if r == 6 {
        placed(Symbol::Pawn, true, r, c)
    } else if r == 7 {
        placed(back_row_kind(c), true, r, c)
    } else {
        empty_piece(r, c)
    }
}

/// The position at the start of a game.
pub open spec fn initial_grid() -> Seq<Piece> {
    Seq::new(64, |i: int| initial_cell(i / 8, i % 8))
}

/// The letter for a piece on a printed board: upper case for White, a blank
/// for an empty square.
pub open spec fn symbol_letter(symbol: Symbol, side: bool) -> char {
    match symbol {
        Symbol::King => if side { 'K' } else { 'k' },
        Symbol::Queen => if side { 'Q' } else { 'q' },
        Symbol::Rook => if side { 'R' } else { 'r' },
        Symbol::Bishop => if side { 'B' } else { 'b' },
        Symbol::Knight => if side { 'N' } else { 'n' },
        Symbol::Pawn => if side { 'P' } else { 'p' },
        Symbol::Empty => ' ',
    }
}

/// The letter that stands for a piece of the given kind and side on a printed board.
pub fn get_char_symbol_for_symbol_enum(symbol: Symbol, side: bool) -> (letter: char)
    ensures
        letter == symbol_letter(symbol, side),
{
    match symbol {
        Symbol::King => if side { 'K' } else { 'k' },
        Symbol::Queen => if side { 'Q' } else { 'q' },
        Symbol::Rook => if side { 'R' } else { 'r' },
        Symbol::Bishop => if side { 'B' } else { 'b' },
        Symbol::Knight => if side { 'N' } else { 'n' },
        Symbol::Pawn => if side { 'P' } else { 'p' },
        Symbol::Empty => ' ',
    }
}

/// Places the piece that starts on `square` of a back row.
fn place_back_row_piece(board: &mut [[Piece; 8]; 8], square: &(u8, u8), color: bool)
    requires
        square.0 < 8,
        square.1 < 8,
    ensures
        grid(*final(board)) == grid(*old(board)).update(
            8 * square.0 + square.1,
            placed(back_row_kind(square.1 as int), color, square.0 as int, square.1 as int),
        ),
{
    let col = square.1;
    if col == 0 || col == 7 {
        place_rook_on_board(board, square, color);
    } else if col == 1 || col == 6 {
        place_knight_on_board(board, square, color);
    } else if col == 2 || col == 5 {
        place_bishop_on_board(board, square, color);
    } else if col == 3 {
        place_queen_on_board(board, square, color);
    } else {
        place_king_on_board(board, square, color);
    }
}

/// The board at the start of a game.
pub fn initialize_chess_board() -> (board: [[Piece; 8]; 8])
    ensures
        grid(board) == initial_grid(),
{
    let mut board = create_empty_board();
    let mut y: u8 = 0;
    while y < 8
        invariant
            y <= 8,
            forall|k: int|
                0 <= k < 64 ==> #[trigger] grid(board)[k] == (if k % 8 < y {
                    initial_cell(k / 8, k % 8)
                } else {
                    empty_piece(k / 8, k % 8)
                }),
        decreases 8 - y,
    {
        place_back_row_piece(&mut board, &(0, y), false);
        place_pawn_on_board(&mut board, &(1, y), false);
        place_pawn_on_board(&mut board, &(6, y), true);
        place_back_row_piece(&mut board, &(7, y), true);
        y += 1;
    }
    board
}

/// The board with no piece on it.
pub fn create_empty_board() -> (board: [[Piece; 8]; 8])
    ensures
        grid(board) == empty_grid(),
{
    let mut board: [[Piece; 8]; 8] = [[create_empty_piece(&(0, 0)); 8]; 8];
    let mut i: u8 = 0;
    while i < 64
        invariant
            i <= 64,
            forall|k: int| 0 <= k < i ==> grid(board)[k] == empty_grid()[k],
        decreases 64 - i,
    {
        let (x, y) = (i / 8, i % 8);
        make_square_empty(&mut board, &(x, y));
        i += 1;
    }
    board
}

} // verus!
