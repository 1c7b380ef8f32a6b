//! The move generators, one for each kind of piece.
//!
//! Every generator returns its moves in a fixed order and keeps a candidate
//! only if applying it does not leave the mover's own king in check.

use crate::attack::{
    exposes_king, get_square_of_king, has_king, in_check, is_king_in_check, is_king_of,
    is_piece_pinned, king_index, lemma_has_king, lemma_king_index, lemma_promotion_keeps_filter,
    stands, stands_at,
};
use crate::pieces_logic::{Move, Piece, piece_at, Promotion, Symbol};
use crate::position::{after_move, applicable, cell, grid, mover_color, on_board};
use vstd::prelude::*;

verus! {

/// The move from `(fr, fc)` to `(tr, tc)` that neither castles nor promotes.
pub open spec fn plain_move(fr: int, fc: int, tr: int, tc: int) -> Move {
    Move {
        current_square: (fr as u8, fc as u8),
        destination_square: (tr as u8, tc as u8),
        castle: false,
        promotion: Promotion::NoPromotion,
    }
}

/// A piece of the given colour may land on `(r, c)`: the square is on the
/// board and is empty or holds an enemy piece other than the king.
pub open spec fn can_land(g: Seq<Piece>, r: int, c: int, color: bool) -> bool {
    &&& on_board(r, c)
    &&& cell(g, r, c).is_empty || (cell(g, r, c).color != color && cell(g, r, c).symbol
        != Symbol::King)
}

/// The move alone if it passes the legality filter, nothing otherwise.
pub open spec fn kept(g: Seq<Piece>, m: Move) -> Seq<Move> {
    if exposes_king(g, m) {
        Seq::empty()
    } else {
        seq![m]
    }
}

/// No move of the sequence leaves the mover's own king in check.
pub open spec fn all_safe(g: Seq<Piece>, moves: Seq<Move>) -> bool {
    forall|i: int| 0 <= i < moves.len() ==> !exposes_king(g, #[trigger] moves[i])
}

/// A step that neither castles nor promotes leaves a side its king if it does
/// not land on that king, and if that king does not step onto its own square.
pub proof fn lemma_king_survives_step(g: Seq<Piece>, m: Move, color: bool)
    requires
        g.len() == 64,
        applicable(m),
        !m.castle,
        m.promotion == Promotion::NoPromotion,
        has_king(g, color),
        !is_king_of(cell(g, m.destination_square.0 as int, m.destination_square.1 as int), color),
        m.current_square != m.destination_square || !is_king_of(
            cell(g, m.current_square.0 as int, m.current_square.1 as int),
            color,
        ),
    ensures
        has_king(after_move(g, m), color),
{
    reveal(after_move);
    lemma_king_index(g, color, 0);
    let k = king_index(g, color);
    let from = 8 * m.current_square.0 + m.current_square.1;
    let to = 8 * m.destination_square.0 + m.destination_square.1;
    let after = after_move(g, m);
    if k == from {
        lemma_has_king(after, color, to);
    } else {
        lemma_has_king(after, color, k);
    }
}

/// The step from `(fr, fc)` to `(tr, tc)` of a piece that moves by single
/// jumps, if the piece may land there and the step passes the filter.
pub open spec fn step_move(g: Seq<Piece>, fr: int, fc: int, tr: int, tc: int) -> Seq<Move> {
    if can_land(g, tr, tc, cell(g, fr, fc).color) {
        kept(g, plain_move(fr, fc, tr, tc))
    } else {
        Seq::empty()
    }
}

/// The legal moves of a knight on `(r, c)`.
pub open spec fn knight_moves(g: Seq<Piece>, r: int, c: int) -> Seq<Move> {
    step_move(g, r, c, r - 2, c - 1) + step_move(g, r, c, r - 2, c + 1) + step_move(
        g,
        r,
        c,
        r - 1,
        c - 2,
    ) + step_move(g, r, c, r + 1, c - 2) + step_move(g, r, c, r + 2, c - 1) + step_move(
        g,
        r,
        c,
        r + 2,
        c + 1,
    ) + step_move(g, r, c, r + 1, c + 2) + step_move(g, r, c, r - 1, c + 2)
}

/// Appends the step by `(dr, dc)` to `output` if it is legal.
fn try_step(board: &[[Piece; 8]; 8], output: &mut Vec<Move>, square: &(u8, u8), dr: i8, dc: i8)
    requires
        square.0 < 8,
        square.1 < 8,
        -2 <= dr <= 2,
        -2 <= dc <= 2,
        dr != 0 || dc != 0,
        has_king(
            grid(*board),
            cell(grid(*board), square.0 as int, square.1 as int).color,
        ),
    ensures
        final(output)@ == old(output)@ + step_move(
            grid(*board),
            square.0 as int,
            square.1 as int,
            square.0 + dr,
            square.1 + dc,
        ),
        all_safe(grid(*board), old(output)@) ==> all_safe(grid(*board), final(output)@),
{
    let row = square.0 as i8 + dr;
    let col = square.1 as i8 + dc;
    if row >= 0 && row < 8 && col >= 0 && col < 8 {
        let to_sqr = piece_at(board, row as u8, col as u8);
        let mover = piece_at(board, square.0, square.1);
        if to_sqr.is_empty || (to_sqr.color != mover.color && to_sqr.symbol != Symbol::King) {
            let step: Move = Move {
                current_square: *square,
                destination_square: (row as u8, col as u8),
                castle: false,
                promotion: Promotion::NoPromotion,
            };
            proof {
                lemma_king_survives_step(grid(*board), step, mover.color);
            }
            if !is_piece_pinned(board, &step) {
                output.push(step);
            }
        }
    }
}

/// The legal moves of the knight on `square`.
pub fn get_legal_moves_for_knight(board: &[[Piece; 8]; 8], square: &(u8, u8)) -> (moves: Vec<Move>)
    requires
        square.0 < 8,
        square.1 < 8,
        has_king(
            grid(*board),
            cell(grid(*board), square.0 as int, square.1 as int).color,
        ),
    ensures
        moves@ == knight_moves(grid(*board), square.0 as int, square.1 as int),
        all_safe(grid(*board), moves@),
{
    let mut output: Vec<Move> = Vec::new();
    try_step(board, &mut output, square, -2, -1);
    try_step(board, &mut output, square, -2, 1);
    try_step(board, &mut output, square, -1, -2);
    try_step(board, &mut output, square, 1, -2);
    try_step(board, &mut output, square, 2, -1);
    try_step(board, &mut output, square, 2, 1);
    try_step(board, &mut output, square, 1, 2);
    try_step(board, &mut output, square, -1, 2);
    output
}

/// The moves along one ray, from the square after `(r, c)` outward over at
/// most `reach` squares, of the piece on `(fr, fc)`. A friendly piece or the
/// enemy king ends the ray before its square; any other piece ends it on its
/// square.
pub open spec fn ray_moves(
    g: Seq<Piece>,
    fr: int,
    fc: int,
    r: int,
    c: int,
    dr: int,
    dc: int,
    reach: nat,
) -> Seq<Move>
    decreases reach,
{
    let target = cell(g, r + dr, c + dc);
    if reach == 0 || !on_board(r + dr, c + dc) {
        Seq::empty()
    } else if !target.is_empty && (target.color == cell(g, fr, fc).color || target.symbol
        == Symbol::King) {
        Seq::empty()
    } else if !target.is_empty {
        kept(g, plain_move(fr, fc, r + dr, c + dc))
    } else {
        kept(g, plain_move(fr, fc, r + dr, c + dc)) + ray_moves(
            g,
            fr,
            fc,
            r + dr,
            c + dc,
            dr,
            dc,
            (reach - 1) as nat,
        )
    }
}

/// The moves of the piece on `(r, c)` along four rays, taken in the order of `directions`.
pub open spec fn long_ray_moves(g: Seq<Piece>, r: int, c: int, directions: Seq<(i8, i8)>) -> Seq<
    Move,
> {
    ray_moves(g, r, c, r, c, directions[0].0 as int, directions[0].1 as int, 7) + ray_moves(
        g,
        r,
        c,
        r,
        c,
        directions[1].0 as int,
        directions[1].1 as int,
        7,
    ) + ray_moves(g, r, c, r, c, directions[2].0 as int, directions[2].1 as int, 7) + ray_moves(
        g,
        r,
        c,
        r,
        c,
        directions[3].0 as int,
        directions[3].1 as int,
        7,
    )
}

/// The four diagonal directions, in the order in which a bishop tries them.
pub open spec fn bishop_directions() -> Seq<(i8, i8)> {
    seq![(1i8, 1i8), (1i8, -1i8), (-1i8, 1i8), (-1i8, -1i8)]
}

/// The four straight directions, in the order in which a rook tries them.
pub open spec fn rook_directions() -> Seq<(i8, i8)> {
    seq![(1i8, 0i8), (-1i8, 0i8), (0i8, 1i8), (0i8, -1i8)]
}

/// The legal moves of a bishop on `(r, c)`.
pub open spec fn bishop_moves(g: Seq<Piece>, r: int, c: int) -> Seq<Move> {
    long_ray_moves(g, r, c, bishop_directions())
}

/// The legal moves of a rook on `(r, c)`.
pub open spec fn rook_moves(g: Seq<Piece>, r: int, c: int) -> Seq<Move> {
    long_ray_moves(g, r, c, rook_directions())
}

/// The rook's moves followed by the bishop's.
pub open spec fn queen_moves(g: Seq<Piece>, r: int, c: int) -> Seq<Move> {
    rook_moves(g, r, c) + bishop_moves(g, r, c)
}

/// Appends the legal moves along the ray in direction `(dr, dc)`.
fn walk_ray(board: &[[Piece; 8]; 8], output: &mut Vec<Move>, square: &(u8, u8), dr: i8, dc: i8)
    requires
        square.0 < 8,
        square.1 < 8,
        has_king(
            grid(*board),
            cell(grid(*board), square.0 as int, square.1 as int).color,
        ),
    ensures
        final(output)@ == old(output)@ + ray_moves(
            grid(*board),
            square.0 as int,
            square.1 as int,
            square.0 as int,
            square.1 as int,
            dr as int,
            dc as int,
            7,
        ),
        all_safe(grid(*board), old(output)@) ==> all_safe(grid(*board), final(output)@),
{
    let mover = piece_at(board, square.0, square.1);
    let mut row: i16 = square.0 as i16 + dr as i16;
    let mut col: i16 = square.1 as i16 + dc as i16;
    let mut steps: u8 = 0;
    while steps < 7 && row >= 0 && row < 8 && col >= 0 && col < 8
        invariant
            steps <= 7,
            square.0 < 8,
            square.1 < 8,
            on_board(row - dr, col - dc),
            mover == cell(grid(*board), square.0 as int, square.1 as int),
            has_king(grid(*board), mover.color),
            all_safe(grid(*board), old(output)@) ==> all_safe(grid(*board), output@),
            old(output)@ + ray_moves(
                grid(*board),
                square.0 as int,
                square.1 as int,
                square.0 as int,
                square.1 as int,
                dr as int,
                dc as int,
                7,
            ) == output@ + ray_moves(
                grid(*board),
                square.0 as int,
                square.1 as int,
                row - dr,
                col - dc,
                dr as int,
                dc as int,
                (7 - steps) as nat,
            ),
        decreases 7 - steps,
    {
        let target = piece_at(board, row as u8, col as u8);
        if !target.is_empty && (target.color == mover.color || target.symbol == Symbol::King) {
            return ;
        }
        let proposed_move: Move = Move {
            current_square: *square,
            destination_square: (row as u8, col as u8),
            castle: false,
            promotion: Promotion::NoPromotion,
        };
        proof {
            lemma_king_survives_step(grid(*board), proposed_move, mover.color);
        }
        if !is_piece_pinned(board, &proposed_move) {
            output.push(proposed_move);
        }
        if !target.is_empty {
            return ;
        }
        row = row + dr as i16;
        col = col + dc as i16;
        steps += 1;
    }
}

/// The legal moves of the piece on `square` along the four rays of `moves`.
pub fn get_legal_long_ray_moves(
    board: &[[Piece; 8]; 8],
    square: &(u8, u8),
    moves: [(i8, i8); 4],
) -> (output: Vec<Move>)
    requires
        square.0 < 8,
        square.1 < 8,
        has_king(
            grid(*board),
            cell(grid(*board), square.0 as int, square.1 as int).color,
        ),
    ensures
        output@ == long_ray_moves(grid(*board), square.0 as int, square.1 as int, moves@),
        all_safe(grid(*board), output@),
{
    let mut output: Vec<Move> = Vec::new();
    walk_ray(board, &mut output, square, moves[0].0, moves[0].1);
    walk_ray(board, &mut output, square, moves[1].0, moves[1].1);
    walk_ray(board, &mut output, square, moves[2].0, moves[2].1);
    walk_ray(board, &mut output, square, moves[3].0, moves[3].1);
    output
}

/// The legal moves of the bishop on `square`.
pub fn get_legal_moves_for_bishop(board: &[[Piece; 8]; 8], square: &(u8, u8)) -> (moves: Vec<Move>)
    requires
        square.0 < 8,
        square.1 < 8,
        has_king(
            grid(*board),
            cell(grid(*board), square.0 as int, square.1 as int).color,
        ),
    ensures
        moves@ == bishop_moves(grid(*board), square.0 as int, square.1 as int),
        all_safe(grid(*board), moves@),
{
    let bishop_moves: [(i8, i8); 4] = [(1, 1), (1, -1), (-1, 1), (-1, -1)];
    get_legal_long_ray_moves(board, square, bishop_moves)
}

/// The legal moves of the rook on `square`.
pub fn get_legal_moves_for_rook(board: &[[Piece; 8]; 8], square: &(u8, u8)) -> (moves: Vec<Move>)
    requires
        square.0 < 8,
        square.1 < 8,
        has_king(
            grid(*board),
            cell(grid(*board), square.0 as int, square.1 as int).color,
        ),
    ensures
        moves@ == rook_moves(grid(*board), square.0 as int, square.1 as int),
        all_safe(grid(*board), moves@),
{
    let rook_moves: [(i8, i8); 4] = [(1, 0), (-1, 0), (0, 1), (0, -1)];
    get_legal_long_ray_moves(board, square, rook_moves)
}

/// The legal moves of the queen on `square`: those of a rook, then those of a bishop.
pub fn get_legal_moves_for_queen(board: &[[Piece; 8]; 8], square: &(u8, u8)) -> (moves: Vec<Move>)
    requires
        square.0 < 8,
        square.1 < 8,
        has_king(
            grid(*board),
            cell(grid(*board), square.0 as int, square.1 as int).color,
        ),
    ensures
        moves@ == queen_moves(grid(*board), square.0 as int, square.1 as int),
        all_safe(grid(*board), moves@),
{
    let mut output: Vec<Move> = get_legal_moves_for_rook(board, square);
    let mut diagonal: Vec<Move> = get_legal_moves_for_bishop(board, square);
    output.append(&mut diagonal);
    output
}

/// The row step of a pawn: White moves towards row 0.
pub open spec fn forward(color: bool) -> int {
    if color {
        -1
    } else {
        1
    }
}

/// The row on which a pawn of the given colour promotes.
pub open spec fn last_rank(color: bool) -> int {
    if color {
        0
    } else {
        7
    }
}

/// The move `m` with its promotion replaced.
pub open spec fn promoting(m: Move, kind: Promotion) -> Move {
    Move {
        current_square: m.current_square,
        destination_square: m.destination_square,
        castle: m.castle,
        promotion: kind,
    }
}

/// What a pawn's candidate step contributes: nothing if it fails the filter,
/// the four promotions if it lands on row `rank`, the step itself otherwise.
pub open spec fn pawn_entry(g: Seq<Piece>, m: Move, rank: int) -> Seq<Move> {
    if exposes_king(g, m) {
        Seq::empty()
    } else if m.destination_square.0 == rank {
        seq![
            promoting(m, Promotion::Queen),
            promoting(m, Promotion::Rook),
            promoting(m, Promotion::Bishop),
            promoting(m, Promotion::Knight),
        ]
    } else {
        seq![m]
    }
}

/// The push by one square, onto an empty square.
pub open spec fn pawn_push(g: Seq<Piece>, r: int, c: int) -> Seq<Move> {
    let color = cell(g, r, c).color;
    let row = r + forward(color);
    if on_board(row, c) && cell(g, row, c).is_empty {
        pawn_entry(g, plain_move(r, c, row, c), last_rank(color))
    } else {
        Seq::empty()
    }
}

/// The push by two squares of a pawn that has not moved, over and onto empty squares.
pub open spec fn pawn_double_push(g: Seq<Piece>, r: int, c: int) -> Seq<Move> {
    let color = cell(g, r, c).color;
    let row = r + 2 * forward(color);
    if on_board(row, c) && cell(g, r + forward(color), c).is_empty && cell(g, row, c).is_empty
        && !cell(g, r, c).has_moved {
        pawn_entry(g, plain_move(r, c, row, c), last_rank(color))
    } else {
        Seq::empty()
    }
}

/// The capture onto column `tc` of the next row, of an enemy piece other than the king.
pub open spec fn pawn_capture(g: Seq<Piece>, r: int, c: int, tc: int) -> Seq<Move> {
    let color = cell(g, r, c).color;
    let row = r + forward(color);
    if on_board(row, tc) && !cell(g, row, tc).is_empty && cell(g, row, tc).color != color && cell(
        g,
        row,
        tc,
    ).symbol != Symbol::King {
        pawn_entry(g, plain_move(r, c, row, tc), last_rank(color))
    } else {
        Seq::empty()
    }
}

/// The legal moves of a pawn on `(r, c)`: push, double push, capture towards
/// the higher column, capture towards the lower column.
pub open spec fn pawn_moves(g: Seq<Piece>, r: int, c: int) -> Seq<Move> {
    pawn_push(g, r, c) + pawn_double_push(g, r, c) + pawn_capture(g, r, c, c + 1) + pawn_capture(
        g,
        r,
        c,
        c - 1,
    )
}

/// An occupied cell that holds no king.
pub open spec fn is_commoner(p: Piece) -> bool {
    !p.is_empty && p.symbol != Symbol::King
}

/// Appends what the candidate `step` of a pawn contributes.
fn add_pawn_step(board: &[[Piece; 8]; 8], output: &mut Vec<Move>, step: Move, rank: u8)
    requires
        applicable(step),
        !step.castle,
        step.promotion == Promotion::NoPromotion,
        step.current_square != step.destination_square,
        has_king(grid(*board), mover_color(grid(*board), step)),
        !is_king_of(
            cell(grid(*board), step.destination_square.0 as int, step.destination_square.1 as int),
            mover_color(grid(*board), step),
        ),
    ensures
        final(output)@ == old(output)@ + pawn_entry(grid(*board), step, rank as int),
        is_commoner(cell(grid(*board), step.current_square.0 as int, step.current_square.1 as int))
            && all_safe(grid(*board), old(output)@) ==> all_safe(grid(*board), final(output)@),
{
    proof {
        lemma_king_survives_step(grid(*board), step, mover_color(grid(*board), step));
    }
    if !is_piece_pinned(board, &step) {
        if step.destination_square.0 == rank {
            proof {
                if is_commoner(
                    cell(grid(*board), step.current_square.0 as int, step.current_square.1 as int),
                ) {
                    lemma_promotion_keeps_filter(grid(*board), step, Promotion::Queen);
                    lemma_promotion_keeps_filter(grid(*board), step, Promotion::Rook);
                    lemma_promotion_keeps_filter(grid(*board), step, Promotion::Bishop);
                    lemma_promotion_keeps_filter(grid(*board), step, Promotion::Knight);
                }
            }
            output.push(Move { promotion: Promotion::Queen, ..step });
            output.push(Move { promotion: Promotion::Rook, ..step });
            output.push(Move { promotion: Promotion::Bishop, ..step });
            output.push(Move { promotion: Promotion::Knight, ..step });
        } else {
            output.push(step);
        }
    }
}

/// The legal moves of the pawn on `square`.
///
/// The generator moves whatever stands on `square` as a pawn. Its moves leave
/// the mover's king safe whenever that piece is not itself a king: a king that
/// is promoted away leaves no king to keep safe.
pub fn get_legal_moves_for_pawn(board: &[[Piece; 8]; 8], square: &(u8, u8)) -> (moves: Vec<Move>)
    requires
        square.0 < 8,
        square.1 < 8,
        has_king(
            grid(*board),
            cell(grid(*board), square.0 as int, square.1 as int).color,
        ),
    ensures
        moves@ == pawn_moves(grid(*board), square.0 as int, square.1 as int),
        is_commoner(cell(grid(*board), square.0 as int, square.1 as int)) ==> all_safe(
            grid(*board),
            moves@,
        ),
{
    let mut output: Vec<Move> = Vec::new();
    let piece_to_move = piece_at(board, square.0, square.1);
    let adder: i8 = if piece_to_move.color { -1 } else { 1 };
    let rank: u8 = if piece_to_move.color { 0 } else { 7 };
    let new_row: i8 = square.0 as i8 + adder;
    let far_row: i8 = new_row + adder;

    if new_row >= 0 && new_row < 8 {
        if piece_at(board, new_row as u8, square.1).is_empty {
            let up_move: Move = Move {
                current_square: *square,
                destination_square: (new_row as u8, square.1),
                castle: false,
                promotion: Promotion::NoPromotion,
            };
            add_pawn_step(board, &mut output, up_move, rank);
            if far_row >= 0 && far_row < 8 {
                if piece_at(board, far_row as u8, square.1).is_empty && !piece_to_move.has_moved {
                    let up_up_move: Move = Move {
                        current_square: *square,
                        destination_square: (far_row as u8, square.1),
                        castle: false,
                        promotion: Promotion::NoPromotion,
                    };
                    add_pawn_step(board, &mut output, up_up_move, rank);
                }
            }
        }
        if square.1 < 7 {
            let target = piece_at(board, new_row as u8, square.1 + 1);
            if !target.is_empty && target.color != piece_to_move.color && target.symbol
                != Symbol::King {
                let capture: Move = Move {
                    current_square: *square,
                    destination_square: (new_row as u8, square.1 + 1),
                    castle: false,
                    promotion: Promotion::NoPromotion,
                };
                add_pawn_step(board, &mut output, capture, rank);
            }
        }
        if square.1 >= 1 {
            let target = piece_at(board, new_row as u8, square.1 - 1);
            if !target.is_empty && target.color != piece_to_move.color && target.symbol
                != Symbol::King {
                let capture: Move = Move {
                    current_square: *square,
                    destination_square: (new_row as u8, square.1 - 1),
                    castle: false,
                    promotion: Promotion::NoPromotion,
                };
                add_pawn_step(board, &mut output, capture, rank);
            }
        }
    }
    output
}

/// The king of the given colour stands next to `(r, c)`.
pub open spec fn near_king(g: Seq<Piece>, r: int, c: int, color: bool) -> bool {
    ||| stands(g, r + 1, c + 1, color, Symbol::King)
    ||| stands(g, r + 1, c, color, Symbol::King)
    ||| stands(g, r + 1, c - 1, color, Symbol::King)
    ||| stands(g, r, c + 1, color, Symbol::King)
    ||| stands(g, r, c - 1, color, Symbol::King)
    ||| stands(g, r - 1, c + 1, color, Symbol::King)
    ||| stands(g, r - 1, c, color, Symbol::King)
    ||| stands(g, r - 1, c - 1, color, Symbol::King)
}

/// The step of the king on `(fr, fc)` to `(tr, tc)`: onto a square it may land
/// on that is not next to the other king, if the step passes the filter.
pub open spec fn king_step(g: Seq<Piece>, fr: int, fc: int, tr: int, tc: int) -> Seq<Move> {
    if can_land(g, tr, tc, cell(g, fr, fc).color) && !near_king(
        g,
        tr,
        tc,
        !cell(g, fr, fc).color,
    ) {
        kept(g, plain_move(fr, fc, tr, tc))
    } else {
        Seq::empty()
    }
}

/// The steps of a king on `(r, c)` to the eight squares around it.
pub open spec fn king_steps(g: Seq<Piece>, r: int, c: int) -> Seq<Move> {
    king_step(g, r, c, r + 1, c + 1) + king_step(g, r, c, r + 1, c) + king_step(
        g,
        r,
        c,
        r + 1,
        c - 1,
    ) + king_step(g, r, c, r, c + 1) + king_step(g, r, c, r, c - 1) + king_step(
        g,
        r,
        c,
        r - 1,
        c + 1,
    ) + king_step(g, r, c, r - 1, c) + king_step(g, r, c, r - 1, c - 1)
}

/// The back row of the given colour.
pub open spec fn home_row(color: bool) -> int {
    if color {
        7
    } else {
        0
    }
}

/// The castle move of the given colour that puts the king on column `to_col`.
pub open spec fn castle_move(color: bool, to_col: int) -> Move {
    Move {
        current_square: (home_row(color) as u8, 4u8),
        destination_square: (home_row(color) as u8, to_col as u8),
        castle: true,
        promotion: Promotion::NoPromotion,
    }
}

/// The king of `color` stands unmoved on its home square and is not in check.
pub open spec fn king_ready(g: Seq<Piece>, color: bool) -> bool {
    &&& king_index(g, color) == 8 * home_row(color) + 4
    &&& !cell(g, home_row(color), 4).has_moved
    &&& !in_check(g, color)
}

/// An unmoved rook of `color` stands on column `col` of the home row.
pub open spec fn rook_ready(g: Seq<Piece>, color: bool, col: int) -> bool {
    let p = cell(g, home_row(color), col);
    !p.is_empty && p.symbol == Symbol::Rook && p.color == color && !p.has_moved
}

/// The king of `color` may pass over or land on column `col` of its home row
/// while castling: the square is empty, not next to the other king, and the
/// king would not be in check on it.
pub open spec fn king_may_cross(g: Seq<Piece>, color: bool, col: int) -> bool {
    &&& cell(g, home_row(color), col).is_empty
    &&& !near_king(g, home_row(color), col, !color)
    &&& !exposes_king(g, plain_move(home_row(color), 4, home_row(color), col))
}

/// Castling towards column 0.
pub open spec fn queenside_castle(g: Seq<Piece>, color: bool) -> Seq<Move> {
    if king_ready(g, color) && rook_ready(g, color, 0) && cell(g, home_row(color), 1).is_empty
        && king_may_cross(g, color, 3) && king_may_cross(g, color, 2) {
        kept(g, castle_move(color, 2))
    } else {
        Seq::empty()
    }
}

/// Castling towards column 7.
pub open spec fn kingside_castle(g: Seq<Piece>, color: bool) -> Seq<Move> {
    if king_ready(g, color) && rook_ready(g, color, 7) && king_may_cross(g, color, 5)
        && king_may_cross(g, color, 6) {
        kept(g, castle_move(color, 6))
    } else {
        Seq::empty()
    }
}

/// The castle moves of `color`: towards column 0 first, then towards column 7.
pub open spec fn castling_moves(g: Seq<Piece>, color: bool) -> Seq<Move> {
    queenside_castle(g, color) + kingside_castle(g, color)
}

/// The legal moves of a king on `(r, c)`: its steps, then the castle moves of its colour.
pub open spec fn king_moves(g: Seq<Piece>, r: int, c: int) -> Seq<Move> {
    king_steps(g, r, c) + castling_moves(g, cell(g, r, c).color)
}

fn is_near_king(board: &[[Piece; 8]; 8], r: u8, c: u8, color: bool) -> (near: bool)
    requires
        r < 8,
        c < 8,
    ensures
        near == near_king(grid(*board), r as int, c as int, color),
{
    let row = r as i8;
    let col = c as i8;
    stands_at(board, row + 1, col + 1, color, Symbol::King) || stands_at(
        board,
        row + 1,
        col,
        color,
        Symbol::King,
    ) || stands_at(board, row + 1, col - 1, color, Symbol::King) || stands_at(
        board,
        row,
        col + 1,
        color,
        Symbol::King,
    ) || stands_at(board, row, col - 1, color, Symbol::King) || stands_at(
        board,
        row - 1,
        col + 1,
        color,
        Symbol::King,
    ) || stands_at(board, row - 1, col, color, Symbol::King) || stands_at(
        board,
        row - 1,
        col - 1,
        color,
        Symbol::King,
    )
}

/// Appends the king's step by `(dr, dc)` to `output` if it is legal.
fn try_king_step(
    board: &[[Piece; 8]; 8],
    output: &mut Vec<Move>,
    square: &(u8, u8),
    dr: i8,
    dc: i8,
)
    requires
        square.0 < 8,
        square.1 < 8,
        -1 <= dr <= 1,
        -1 <= dc <= 1,
        dr != 0 || dc != 0,
        has_king(
            grid(*board),
            cell(grid(*board), square.0 as int, square.1 as int).color,
        ),
    ensures
        final(output)@ == old(output)@ + king_step(
            grid(*board),
            square.0 as int,
            square.1 as int,
            square.0 + dr,
            square.1 + dc,
        ),
        all_safe(grid(*board), old(output)@) ==> all_safe(grid(*board), final(output)@),
{
    let row = square.0 as i8 + dr;
    let col = square.1 as i8 + dc;
    if row >= 0 && row < 8 && col >= 0 && col < 8 {
        let board_square = piece_at(board, row as u8, col as u8);
        let piece_square = piece_at(board, square.0, square.1);
        if (board_square.is_empty || (board_square.color != piece_square.color
            && board_square.symbol != Symbol::King)) && !is_near_king(
            board,
            row as u8,
            col as u8,
            !piece_square.color,
        ) {
            let k_move: Move = Move {
                current_square: *square,
                destination_square: (row as u8, col as u8),
                castle: false,
                promotion: Promotion::NoPromotion,
            };
            proof {
                lemma_king_survives_step(grid(*board), k_move, piece_square.color);
            }
            if !is_piece_pinned(board, &k_move) {
                output.push(k_move);
            }
        }
    }
}

/// Whether the king of `color`, standing on column 4 of its home row, may
/// pass over or land on column `col` while castling.
fn may_cross(board: &[[Piece; 8]; 8], color: bool, col: u8) -> (free: bool)
    requires
        col < 8,
        col != 4,
        king_index(grid(*board), color) == 8 * home_row(color) + 4,
    ensures
        free == king_may_cross(grid(*board), color, col as int),
{
    let row: u8 = if color { 7 } else { 0 };
    if !piece_at(board, row, col).is_empty {
        return false;
    }
    if is_near_king(board, row, col, !color) {
        return false;
    }
    let crossing = Move {
        current_square: (row, 4),
        destination_square: (row, col),
        castle: false,
        promotion: Promotion::NoPromotion,
    };
    proof {
        lemma_king_index(grid(*board), color, 0);
        lemma_king_survives_step(grid(*board), crossing, color);
    }
    !is_piece_pinned(board, &crossing)
}

/// Appends the castle move that puts the king on column `to_col` if it passes the filter.
fn add_castle(board: &[[Piece; 8]; 8], output: &mut Vec<Move>, color: bool, to_col: u8)
    requires
        to_col == 2 || to_col == 6,
        king_index(grid(*board), color) == 8 * home_row(color) + 4,
    ensures
        final(output)@ == old(output)@ + kept(grid(*board), castle_move(color, to_col as int)),
        all_safe(grid(*board), old(output)@) ==> all_safe(grid(*board), final(output)@),
{
    let row: u8 = if color { 7 } else { 0 };
    let castle = Move {
        current_square: (row, 4),
        destination_square: (row, to_col),
        castle: true,
        promotion: Promotion::NoPromotion,
    };
    proof {
        reveal(after_move);
        lemma_king_index(grid(*board), color, 0);
        let after = after_move(grid(*board), castle);
        lemma_has_king(after, color, 8 * row + to_col);
    }
    if !is_piece_pinned(board, &castle) {
        output.push(castle);
    }
}

/// The castle moves of `color`.
pub fn get_castling_moves(board: &[[Piece; 8]; 8], color: bool) -> (moves: Vec<Move>)
    requires
        has_king(grid(*board), color),
    ensures
        moves@ == castling_moves(grid(*board), color),
        all_safe(grid(*board), moves@),
{
    let mut output: Vec<Move> = Vec::new();
    let king = get_square_of_king(board, color);
    let row: u8 = if color { 7 } else { 0 };
    if king.0 != row || king.1 != 4 {
        return output;
    }
    let king_piece = piece_at(board, row, 4);
    if king_piece.has_moved {
        return output;
    }
    if is_king_in_check(board, color) {
        return output;
    }
    let left_corner = piece_at(board, row, 0);
    let right_corner = piece_at(board, row, 7);

    if !left_corner.is_empty && left_corner.symbol == Symbol::Rook && left_corner.color == color
        && !left_corner.has_moved {
        if piece_at(board, row, 1).is_empty && may_cross(board, color, 3) && may_cross(
            board,
            color,
            2,
        ) {
            add_castle(board, &mut output, color, 2);
        }
    }
    if !right_corner.is_empty && right_corner.symbol == Symbol::Rook && right_corner.color == color
        && !right_corner.has_moved {
        if may_cross(board, color, 5) && may_cross(board, color, 6) {
            add_castle(board, &mut output, color, 6);
        }
    }
    output
}

/// The legal moves of the king on `square`, castling included.
pub fn get_legal_moves_for_king(board: &[[Piece; 8]; 8], square: &(u8, u8)) -> (moves: Vec<Move>)
    requires
        square.0 < 8,
        square.1 < 8,
        has_king(
            grid(*board),
            cell(grid(*board), square.0 as int, square.1 as int).color,
        ),
    ensures
        moves@ == king_moves(grid(*board), square.0 as int, square.1 as int),
        all_safe(grid(*board), moves@),
{
    let mut output: Vec<Move> = Vec::new();
    try_king_step(board, &mut output, square, 1, 1);
    try_king_step(board, &mut output, square, 1, 0);
    try_king_step(board, &mut output, square, 1, -1);
    try_king_step(board, &mut output, square, 0, 1);
    try_king_step(board, &mut output, square, 0, -1);
    try_king_step(board, &mut output, square, -1, 1);
    try_king_step(board, &mut output, square, -1, 0);
    try_king_step(board, &mut output, square, -1, -1);
    let mut castles = get_castling_moves(board, piece_at(board, square.0, square.1).color);
    output.append(&mut castles);
    output
}

} // verus!
