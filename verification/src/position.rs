//! The mathematical model of a position: the 64 cells in row-major order.

use crate::pieces_logic::{Move, Piece, Promotion, Symbol};
use vstd::prelude::*;

verus! {

/// The cells of `board` in row-major order: cell `(r, c)` is at index `8 * r + c`.
pub open spec fn grid(board: [[Piece; 8]; 8]) -> Seq<Piece> {
    Seq::new(64, |i: int| board[i / 8][i % 8])
}

/// `(r, c)` is a square of the board.
pub open spec fn on_board(r: int, c: int) -> bool {
    0 <= r < 8 && 0 <= c < 8
}

/// The cell on `(r, c)`.
pub open spec fn cell(g: Seq<Piece>, r: int, c: int) -> Piece {
    g[8 * r + c]
}

/// The sentinel that stands on an unoccupied square.
pub open spec fn empty_piece(r: int, c: int) -> Piece {
    Piece {
        color: false,
        symbol: Symbol::Empty,
        has_moved: false,
        value: 0,
        is_empty: true,
        current_square: (r as u8, c as u8),
    }
}

/// The value that the board editor stamps on a piece of the given kind.
pub open spec fn piece_value(kind: Symbol) -> int {
    match kind {
        Symbol::Pawn => 100,
        Symbol::Knight => 320,
        Symbol::Bishop => 330,
        Symbol::Rook => 500,
        Symbol::Queen => 900,
        Symbol::King => 10000,
        Symbol::Empty => 0,
    }
}

/// A freshly placed, unmoved piece.
pub open spec fn placed(kind: Symbol, color: bool, r: int, c: int) -> Piece {
    Piece {
        color,
        symbol: kind,
        has_moved: false,
        value: piece_value(kind) as i64,
        is_empty: false,
        current_square: (r as u8, c as u8),
    }
}

/// The kind that a promotion turns a piece into; `Empty` where there is none.
pub open spec fn promotion_kind(promotion: Promotion) -> Symbol {
    match promotion {
        Promotion::Queen => Symbol::Queen,
        Promotion::Rook => Symbol::Rook,
        Promotion::Bishop => Symbol::Bishop,
        Promotion::Knight => Symbol::Knight,
        Promotion::NoPromotion => Symbol::Empty,
    }
}

/// Both squares of the move lie on the board.
pub open spec fn move_on_board(m: Move) -> bool {
    &&& m.current_square.0 < 8
    &&& m.current_square.1 < 8
    &&& m.destination_square.0 < 8
    &&& m.destination_square.1 < 8
}

/// The column of the corner that the rook of a castle move comes from.
pub open spec fn rook_home_col(m: Move) -> int {
    if m.destination_square.1 > m.current_square.1 {
        7
    } else {
        0
    }
}

/// The column that the king skips over in a castle move, where the rook lands.
pub open spec fn rook_landing_col(m: Move) -> int {
    if m.destination_square.1 > m.current_square.1 {
        m.current_square.1 + 1
    } else {
        m.current_square.1 - 1
    }
}

/// A move that can be applied: its squares are on the board, and so is the
/// square that a castle move puts the rook on.
pub open spec fn applicable(m: Move) -> bool {
    &&& move_on_board(m)
    &&& m.castle ==> 0 <= rook_landing_col(m) < 8
}

/// The colour of the piece on the move's source square.
pub open spec fn mover_color(g: Seq<Piece>, m: Move) -> bool {
    cell(g, m.current_square.0 as int, m.current_square.1 as int).color
}

/// The piece on `(r, c)` carried to `(tr, tc)`: stamped with its new square and marked as moved.
pub open spec fn carried(p: Piece, tr: int, tc: int) -> Piece {
    Piece {
        color: p.color,
        symbol: p.symbol,
        has_moved: true,
        value: p.value,
        is_empty: p.is_empty,
        current_square: (tr as u8, tc as u8),
    }
}

/// First step of a move: the piece goes to the destination and the source is cleared.
pub open spec fn stepped(g: Seq<Piece>, m: Move) -> Seq<Piece> {
    let (fr, fc) = (m.current_square.0 as int, m.current_square.1 as int);
    let (tr, tc) = (m.destination_square.0 as int, m.destination_square.1 as int);
    g.update(8 * tr + tc, carried(cell(g, fr, fc), tr, tc)).update(
        8 * fr + fc,
        empty_piece(fr, fc),
    )
}

/// Second step, for a castle move only: the rook of the corner on the side the
/// king went to lands on the square the king skipped, and the corner is cleared.
pub open spec fn castled(g: Seq<Piece>, m: Move) -> Seq<Piece> {
    if m.castle {
        let row = m.current_square.0 as int;
        g.update(
            8 * row + rook_landing_col(m),
            carried(cell(g, row, rook_home_col(m)), row, rook_landing_col(m)),
        ).update(8 * row + rook_home_col(m), empty_piece(row, rook_home_col(m)))
    } else {
        g
    }
}

/// The piece that a promotion puts on `(r, c)`.
pub open spec fn promoted_piece(kind: Symbol, color: bool, r: int, c: int) -> Piece {
    Piece {
        color,
        symbol: kind,
        has_moved: true,
        value: piece_value(kind) as i64,
        is_empty: false,
        current_square: (r as u8, c as u8),
    }
}

/// Last step, for a promoting move only: the destination holds a piece of the
/// promotion's kind and of the mover's colour.
pub open spec fn promoted(g: Seq<Piece>, m: Move, color: bool) -> Seq<Piece> {
    let (tr, tc) = (m.destination_square.0 as int, m.destination_square.1 as int);
    if m.promotion == Promotion::NoPromotion {
        g
    } else {
        g.update(8 * tr + tc, promoted_piece(promotion_kind(m.promotion), color, tr, tc))
    }
}

/// The position after `m` has been applied to `g`.
#[verifier::opaque]
pub open spec fn after_move(g: Seq<Piece>, m: Move) -> Seq<Piece> {
    promoted(castled(stepped(g, m), m), m, mover_color(g, m))
}

/// The empty board.
pub open spec fn empty_grid() -> Seq<Piece> {
    Seq::new(64, |i: int| empty_piece(i / 8, i % 8))
}

} // verus!
