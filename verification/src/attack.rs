//! The attack detector and the legality filter built on it.
//!
//! Whether a king is in check is decided by looking outward from the king's
//! square: at the eight knight squares, along the eight rays up to the first
//! occupied cell, and at the two squares an enemy pawn would capture from.

use crate::pieces_logic::{make_move, Move, Piece, piece_at, Promotion, Symbol};
use crate::position::{after_move, applicable, cell, grid, mover_color, on_board};
use vstd::prelude::*;

verus! {

/// `p` is the king of the given colour.
pub open spec fn is_king_of(p: Piece, color: bool) -> bool {
    !p.is_empty && p.symbol == Symbol::King && p.color == color
}

/// Index of the first king of `color` at or after index `from`, in row-major
/// order; 64 where there is none.
pub open spec fn king_index_from(g: Seq<Piece>, color: bool, from: int) -> int
    decreases 64 - from,
{
    if from < 0 || from >= 64 {
        64
    } else if is_king_of(g[from], color) {
        from
    } else {
        king_index_from(g, color, from + 1)
    }
}

/// Index of the king of `color`; 64 where the side has no king.
pub open spec fn king_index(g: Seq<Piece>, color: bool) -> int {
    king_index_from(g, color, 0)
}

/// The side has a king on the board.
pub open spec fn has_king(g: Seq<Piece>, color: bool) -> bool {
    king_index(g, color) < 64
}

/// A piece of the given colour and kind stands on `(r, c)`.
pub open spec fn stands(g: Seq<Piece>, r: int, c: int, color: bool, kind: Symbol) -> bool {
    &&& on_board(r, c)
    &&& !cell(g, r, c).is_empty
    &&& cell(g, r, c).color == color
    &&& cell(g, r, c).symbol == kind
}

/// A knight of colour `by` stands a knight's jump away from `(r, c)`.
pub open spec fn knight_attacks(g: Seq<Piece>, r: int, c: int, by: bool) -> bool {
    ||| stands(g, r - 2, c - 1, by, Symbol::Knight)
    ||| stands(g, r - 2, c + 1, by, Symbol::Knight)
    ||| stands(g, r - 1, c - 2, by, Symbol::Knight)
    ||| stands(g, r + 1, c - 2, by, Symbol::Knight)
    ||| stands(g, r + 2, c - 1, by, Symbol::Knight)
    ||| stands(g, r + 2, c + 1, by, Symbol::Knight)
    ||| stands(g, r + 1, c + 2, by, Symbol::Knight)
    ||| stands(g, r - 1, c + 2, by, Symbol::Knight)
}

/// The piece can give check along a ray: a queen on any ray, a bishop on a
/// diagonal one, a rook on a straight one.
pub open spec fn slides_along(p: Piece, diagonal: bool) -> bool {
    p.symbol == Symbol::Queen || p.symbol == (if diagonal {
        Symbol::Bishop
    } else {
        Symbol::Rook
    })
}

/// Walking from `(r, c)` in steps of `(dr, dc)` over at most `reach` squares,
/// the first occupied cell holds a piece of colour `by` that slides along the
/// ray.
pub open spec fn slider_attacks(
    g: Seq<Piece>,
    r: int,
    c: int,
    dr: int,
    dc: int,
    by: bool,
    diagonal: bool,
    reach: nat,
) -> bool
    decreases reach,
{
    if reach == 0 || !on_board(r + dr, c + dc) {
        false
    } else if cell(g, r + dr, c + dc).is_empty {
        slider_attacks(g, r + dr, c + dc, dr, dc, by, diagonal, (reach - 1) as nat)
    } else {
        cell(g, r + dr, c + dc).color == by && slides_along(cell(g, r + dr, c + dc), diagonal)
    }
}

/// A pawn of colour `by` stands where it could capture on `(r, c)`. White
/// pawns capture towards row 0, so they attack from the row below.
pub open spec fn pawn_attacks(g: Seq<Piece>, r: int, c: int, by: bool) -> bool {
    let from_row = if by {
        r + 1
    } else {
        r - 1
    };
    stands(g, from_row, c + 1, by, Symbol::Pawn) || stands(g, from_row, c - 1, by, Symbol::Pawn)
}

/// A knight, a sliding piece or a pawn of colour `by` attacks `(r, c)`.
pub open spec fn attacked(g: Seq<Piece>, r: int, c: int, by: bool) -> bool {
    ||| knight_attacks(g, r, c, by)
    ||| slider_attacks(g, r, c, -1, 0, by, false, 7)
    ||| slider_attacks(g, r, c, 1, 0, by, false, 7)
    ||| slider_attacks(g, r, c, 0, -1, by, false, 7)
    ||| slider_attacks(g, r, c, 0, 1, by, false, 7)
    ||| slider_attacks(g, r, c, 1, 1, by, true, 7)
    ||| slider_attacks(g, r, c, 1, -1, by, true, 7)
    ||| slider_attacks(g, r, c, -1, 1, by, true, 7)
    ||| slider_attacks(g, r, c, -1, -1, by, true, 7)
    ||| pawn_attacks(g, r, c, by)
}

/// The king of `color` is attacked by the other side.
pub open spec fn in_check(g: Seq<Piece>, color: bool) -> bool {
    attacked(g, king_index(g, color) / 8, king_index(g, color) % 8, !color)
}

/// Applying `m` leaves the king of the side that moves in check.
#[verifier::opaque]
pub open spec fn exposes_king(g: Seq<Piece>, m: Move) -> bool {
    in_check(after_move(g, m), mover_color(g, m))
}

/// No cell before the king's index holds that king, and the cell at the index does.
pub proof fn lemma_king_index(g: Seq<Piece>, color: bool, from: int)
    requires
        0 <= from <= 64,
    ensures
        from <= king_index_from(g, color, from) <= 64,
        king_index_from(g, color, from) < 64 ==> is_king_of(
            g[king_index_from(g, color, from)],
            color,
        ),
        forall|i: int| from <= i < king_index_from(g, color, from) ==> !is_king_of(g[i], color),
    decreases 64 - from,
{
    if from < 64 && !is_king_of(g[from], color) {
        lemma_king_index(g, color, from + 1);
    }
}

/// A side with a king on some cell has a king.
pub proof fn lemma_has_king(g: Seq<Piece>, color: bool, at: int)
    requires
        0 <= at < 64,
        is_king_of(g[at], color),
    ensures
        has_king(g, color),
{
    lemma_king_index(g, color, 0);
}

/// Whether the king of `color` stands on the board.
pub fn side_has_king(board: &[[Piece; 8]; 8], color: bool) -> (found: bool)
    ensures
        found == has_king(grid(*board), color),
{
    let mut i: u8 = 0;
    while i < 64
        invariant
            i <= 64,
            king_index_from(grid(*board), color, i as int) == king_index(grid(*board), color),
        decreases 64 - i,
    {
        let p = piece_at(board, i / 8, i % 8);
        if !p.is_empty && p.symbol == Symbol::King && p.color == color {
            return true;
        }
        i += 1;
    }
    false
}

/// Locates the king of `color`: the first one in row-major order.
pub fn get_square_of_king(board: &[[Piece; 8]; 8], color: bool) -> (square: (u8, u8))
    requires
        has_king(grid(*board), color),
    ensures
        square.0 < 8,
        square.1 < 8,
        8 * square.0 + square.1 == king_index(grid(*board), color),
{
    let mut i: u8 = 0;
    while i < 64
        invariant
            i <= 64,
            king_index_from(grid(*board), color, i as int) == king_index(grid(*board), color),
            has_king(grid(*board), color),
        decreases 64 - i,
    {
        let p = piece_at(board, i / 8, i % 8);
        if !p.is_empty && p.symbol == Symbol::King && p.color == color {
            return (i / 8, i % 8);
        }
        i += 1;
    }
    (0, 0)
}

pub(crate) fn stands_at(
    board: &[[Piece; 8]; 8],
    r: i8,
    c: i8,
    color: bool,
    kind: Symbol,
) -> (found: bool)
    ensures
        found == stands(grid(*board), r as int, c as int, color, kind),
{
    if 0 <= r && r < 8 && 0 <= c && c < 8 {
        let p = piece_at(board, r as u8, c as u8);
        !p.is_empty && p.color == color && p.symbol == kind
    } else {
        false
    }
}

fn slider_hits(
    board: &[[Piece; 8]; 8],
    r: i8,
    c: i8,
    dr: i8,
    dc: i8,
    by: bool,
    diagonal: bool,
) -> (hit: bool)
    requires
        on_board(r as int, c as int),
        -1 <= dr <= 1,
        -1 <= dc <= 1,
    ensures
        hit == slider_attacks(
            grid(*board),
            r as int,
            c as int,
            dr as int,
            dc as int,
            by,
            diagonal,
            7,
        ),
{
    let mut row: i8 = r + dr;
    let mut col: i8 = c + dc;
    let mut steps: u8 = 0;
    while steps < 7 && 0 <= row && row < 8 && 0 <= col && col < 8
        invariant
            steps <= 7,
            -1 <= dr <= 1,
            -1 <= dc <= 1,
            on_board(row - dr, col - dc),
            slider_attacks(
                grid(*board),
                r as int,
                c as int,
                dr as int,
                dc as int,
                by,
                diagonal,
                7,
            ) == slider_attacks(
                grid(*board),
                row - dr,
                col - dc,
                dr as int,
                dc as int,
                by,
                diagonal,
                (7 - steps) as nat,
            ),
        decreases 7 - steps,
    {
        let p = piece_at(board, row as u8, col as u8);
        if !p.is_empty {
            return p.color == by && (p.symbol == Symbol::Queen || p.symbol == (if diagonal {
                Symbol::Bishop
            } else {
                Symbol::Rook
            }));
        }
        row = row + dr;
        col = col + dc;
        steps += 1;
    }
    false
}

/// Whether a knight, a sliding piece or a pawn of colour `by` attacks `(r, c)`.
pub(crate) fn square_attacked(board: &[[Piece; 8]; 8], r: u8, c: u8, by: bool) -> (hit: bool)
    requires
        r < 8,
        c < 8,
    ensures
        hit == attacked(grid(*board), r as int, c as int, by),
{
    let kr = r as i8;
    let kc = c as i8;
    if stands_at(board, kr - 2, kc - 1, by, Symbol::Knight)
        || stands_at(board, kr - 2, kc + 1, by, Symbol::Knight)
        || stands_at(board, kr - 1, kc - 2, by, Symbol::Knight)
        || stands_at(board, kr + 1, kc - 2, by, Symbol::Knight)
        || stands_at(board, kr + 2, kc - 1, by, Symbol::Knight)
        || stands_at(board, kr + 2, kc + 1, by, Symbol::Knight)
        || stands_at(board, kr + 1, kc + 2, by, Symbol::Knight)
        || stands_at(board, kr - 1, kc + 2, by, Symbol::Knight) {
        return true;
    }
    if slider_hits(board, kr, kc, -1, 0, by, false) || slider_hits(board, kr, kc, 1, 0, by, false)
        || slider_hits(board, kr, kc, 0, -1, by, false) || slider_hits(
        board,
        kr,
        kc,
        0,
        1,
        by,
        false,
    ) {
        return true;
    }
    if slider_hits(board, kr, kc, 1, 1, by, true) || slider_hits(board, kr, kc, 1, -1, by, true)
        || slider_hits(board, kr, kc, -1, 1, by, true) || slider_hits(
        board,
        kr,
        kc,
        -1,
        -1,
        by,
        true,
    ) {
        return true;
    }
    let from_row: i8 = if by { kr + 1 } else { kr - 1 };
    stands_at(board, from_row, kc + 1, by, Symbol::Pawn) || stands_at(
        board,
        from_row,
        kc - 1,
        by,
        Symbol::Pawn,
    )
}

/// Whether the king of `color` is in check.
pub fn is_king_in_check(board: &[[Piece; 8]; 8], color: bool) -> (check: bool)
    requires
        has_king(grid(*board), color),
    ensures
        check == in_check(grid(*board), color),
{
    let k_s = get_square_of_king(board, color);
    square_attacked(board, k_s.0, k_s.1, !color)
}

/// The legality filter: whether `piece_move`, applied to a copy of the board,
/// would leave the king of the side that moves in check.
pub fn is_piece_pinned(board: &[[Piece; 8]; 8], piece_move: &Move) -> (pinned: bool)
    requires
        applicable(*piece_move),
        has_king(after_move(grid(*board), *piece_move), mover_color(grid(*board), *piece_move)),
    ensures
        pinned == exposes_king(grid(*board), *piece_move),
{
    proof {
        reveal(exposes_king);
    }
    let from = piece_move.current_square;
    let piece_to_move = piece_at(board, from.0, from.1);
    let mut new_board = *board;
    make_move(&mut new_board, piece_move);
    is_king_in_check(&new_board, piece_to_move.color)
}

/// Two positions in which the side `by` threatens alike: the same cells are
/// occupied, the same cells hold a piece of `by`, and those pieces are of the
/// same kind.
pub open spec fn same_threats(g1: Seq<Piece>, g2: Seq<Piece>, by: bool) -> bool {
    forall|i: int|
        #![trigger g1[i]]
        #![trigger g2[i]]
        0 <= i < 64 ==> {
            &&& g1[i].is_empty == g2[i].is_empty
            &&& (g1[i].color == by) == (g2[i].color == by)
            &&& g1[i].color == by ==> g1[i].symbol == g2[i].symbol
        }
}

proof fn lemma_same_threats_slider(
    g1: Seq<Piece>,
    g2: Seq<Piece>,
    r: int,
    c: int,
    dr: int,
    dc: int,
    by: bool,
    diagonal: bool,
    reach: nat,
)
    requires
        same_threats(g1, g2, by),
    ensures
        slider_attacks(g1, r, c, dr, dc, by, diagonal, reach) == slider_attacks(
            g2,
            r,
            c,
            dr,
            dc,
            by,
            diagonal,
            reach,
        ),
    decreases reach,
{
    if reach != 0 && on_board(r + dr, c + dc) && cell(g1, r + dr, c + dc).is_empty {
        lemma_same_threats_slider(g1, g2, r + dr, c + dc, dr, dc, by, diagonal, (reach - 1) as nat);
    }
}

proof fn lemma_same_threats_stands(
    g1: Seq<Piece>,
    g2: Seq<Piece>,
    r: int,
    c: int,
    by: bool,
    kind: Symbol,
)
    requires
        same_threats(g1, g2, by),
    ensures
        stands(g1, r, c, by, kind) == stands(g2, r, c, by, kind),
{
}

/// Positions in which a side threatens alike attack the same squares.
pub proof fn lemma_same_threats(g1: Seq<Piece>, g2: Seq<Piece>, r: int, c: int, by: bool)
    requires
        same_threats(g1, g2, by),
    ensures
        attacked(g1, r, c, by) == attacked(g2, r, c, by),
{
    lemma_same_threats_stands(g1, g2, r - 2, c - 1, by, Symbol::Knight);
    lemma_same_threats_stands(g1, g2, r - 2, c + 1, by, Symbol::Knight);
    lemma_same_threats_stands(g1, g2, r - 1, c - 2, by, Symbol::Knight);
    lemma_same_threats_stands(g1, g2, r + 1, c - 2, by, Symbol::Knight);
    lemma_same_threats_stands(g1, g2, r + 2, c - 1, by, Symbol::Knight);
    lemma_same_threats_stands(g1, g2, r + 2, c + 1, by, Symbol::Knight);
    lemma_same_threats_stands(g1, g2, r + 1, c + 2, by, Symbol::Knight);
    lemma_same_threats_stands(g1, g2, r - 1, c + 2, by, Symbol::Knight);
    lemma_same_threats_slider(g1, g2, r, c, -1, 0, by, false, 7);
    lemma_same_threats_slider(g1, g2, r, c, 1, 0, by, false, 7);
    lemma_same_threats_slider(g1, g2, r, c, 0, -1, by, false, 7);
    lemma_same_threats_slider(g1, g2, r, c, 0, 1, by, false, 7);
    lemma_same_threats_slider(g1, g2, r, c, 1, 1, by, true, 7);
    lemma_same_threats_slider(g1, g2, r, c, 1, -1, by, true, 7);
    lemma_same_threats_slider(g1, g2, r, c, -1, 1, by, true, 7);
    lemma_same_threats_slider(g1, g2, r, c, -1, -1, by, true, 7);
    let from_row = if by { r + 1 } else { r - 1 };
    lemma_same_threats_stands(g1, g2, from_row, c + 1, by, Symbol::Pawn);
    lemma_same_threats_stands(g1, g2, from_row, c - 1, by, Symbol::Pawn);
}

/// Positions with the kings of a colour on the same cells find that king at the same index.
pub proof fn lemma_same_kings(g1: Seq<Piece>, g2: Seq<Piece>, color: bool, from: int)
    requires
        forall|i: int|
            0 <= i < 64 ==> is_king_of(#[trigger] g1[i], color) == is_king_of(g2[i], color),
    ensures
        king_index_from(g1, color, from) == king_index_from(g2, color, from),
    decreases 64 - from,
{
    if 0 <= from < 64 && !is_king_of(g1[from], color) {
        lemma_same_kings(g1, g2, color, from + 1);
    }
}

/// What a piece other than the king is promoted to does not change whether
/// its move leaves its own king in check.
pub proof fn lemma_promotion_keeps_filter(g: Seq<Piece>, m: Move, kind: Promotion)
    requires
        g.len() == 64,
        applicable(m),
        !m.castle,
        m.promotion == Promotion::NoPromotion,
        m.current_square != m.destination_square,
        !cell(g, m.current_square.0 as int, m.current_square.1 as int).is_empty,
        cell(g, m.current_square.0 as int, m.current_square.1 as int).symbol != Symbol::King,
    ensures
        exposes_king(
            g,
            Move {
                current_square: m.current_square,
                destination_square: m.destination_square,
                castle: false,
                promotion: kind,
            },
        ) == exposes_king(g, m),
{
    reveal(exposes_king);
    reveal(after_move);
    let color = mover_color(g, m);
    let promoting = Move {
        current_square: m.current_square,
        destination_square: m.destination_square,
        castle: false,
        promotion: kind,
    };
    let g1 = after_move(g, m);
    let g2 = after_move(g, promoting);
    lemma_same_kings(g1, g2, color, 0);
    lemma_same_threats(g1, g2, king_index(g1, color) / 8, king_index(g1, color) % 8, !color);
}

} // verus!
