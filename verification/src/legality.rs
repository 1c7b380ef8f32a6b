//! What every generated move looks like.
//!
//! The generators are stated as sequences; the lemmas here turn membership in
//! such a sequence into the facts that later proofs need: a legal move takes a
//! piece of the side to move from one square to another, never lands on a
//! king or on a piece of its own side, castles only with king and rook in
//! place, promotes only a pawn, and passes the legality filter.

use crate::attack::{
    exposes_king, has_king, is_king_of, king_index, lemma_has_king, lemma_king_index,
    lemma_promotion_keeps_filter,
};
use crate::moves::{
    bishop_directions, bishop_moves, can_land, castle_move, castling_moves, forward, home_row,
    kept, king_may_cross, king_moves, king_ready, king_step, king_steps, kingside_castle,
    knight_moves, last_rank, long_ray_moves, near_king, pawn_capture, pawn_double_push, pawn_entry,
    pawn_moves, pawn_push, plain_move, queenside_castle, ray_moves, rook_directions, rook_moves,
    rook_ready, step_move,
};
use crate::pieces_logic::{Move, Piece, Promotion, Symbol};
use crate::position::{
    after_move, applicable, carried, castled, cell, empty_piece, mover_color, on_board,
    promoted_piece, promotion_kind, rook_home_col, rook_landing_col,
};
use crate::rules::{legal_moves, moves_upto, owned_by, piece_moves};
use vstd::prelude::*;

verus! {

/// The shape of a castle move of `side`: the king goes from column 4 of the
/// home row to column 2 or 6, the square it skips is empty, and an unmoved
/// rook of `side` stands in the corner on that side.
pub open spec fn castle_shape(g: Seq<Piece>, side: bool, m: Move) -> bool {
    let row = home_row(side);
    &&& m.current_square == (row as u8, 4u8)
    &&& m.destination_square == (row as u8, 2u8) || m.destination_square == (row as u8, 6u8)
    &&& cell(g, row, 4).symbol == Symbol::King
    &&& cell(g, row, m.destination_square.1 as int).is_empty
    &&& cell(g, row, rook_landing_col(m)).is_empty
    &&& rook_ready(g, side, rook_home_col(m))
}

/// The shape of a move of `side`, legality filter aside.
pub open spec fn move_shape(g: Seq<Piece>, side: bool, m: Move) -> bool {
    let from = cell(g, m.current_square.0 as int, m.current_square.1 as int);
    let to = cell(g, m.destination_square.0 as int, m.destination_square.1 as int);
    &&& applicable(m)
    &&& m.current_square != m.destination_square
    &&& owned_by(from, side)
    &&& to.is_empty || (to.color != side && to.symbol != Symbol::King)
    &&& from.symbol == Symbol::King ==> !near_king(
        g,
        m.destination_square.0 as int,
        m.destination_square.1 as int,
        !side,
    )
    &&& m.promotion != Promotion::NoPromotion ==> from.symbol == Symbol::Pawn && !m.castle
    &&& m.castle ==> castle_shape(g, side, m)
}

/// A move of `side` that has the shape of a move and passes the legality filter.
pub open spec fn sound_move(g: Seq<Piece>, side: bool, m: Move) -> bool {
    move_shape(g, side, m) && !exposes_king(g, m)
}

/// Every move of the sequence is a sound move of `side`.
pub open spec fn all_sound(g: Seq<Piece>, side: bool, moves: Seq<Move>) -> bool {
    forall|i: int| 0 <= i < moves.len() ==> sound_move(g, side, #[trigger] moves[i])
}

proof fn lemma_concat_sound(g: Seq<Piece>, side: bool, a: Seq<Move>, b: Seq<Move>)
    requires
        all_sound(g, side, a),
        all_sound(g, side, b),
    ensures
        all_sound(g, side, a + b),
{
}

proof fn lemma_kept_sound(g: Seq<Piece>, side: bool, m: Move)
    requires
        move_shape(g, side, m),
    ensures
        all_sound(g, side, kept(g, m)),
{
}

proof fn lemma_step_sound(g: Seq<Piece>, side: bool, fr: int, fc: int, tr: int, tc: int)
    requires
        on_board(fr, fc),
        owned_by(cell(g, fr, fc), side),
        cell(g, fr, fc).symbol != Symbol::King,
        fr != tr || fc != tc,
    ensures
        all_sound(g, side, step_move(g, fr, fc, tr, tc)),
{
    if can_land(g, tr, tc, side) {
        lemma_kept_sound(g, side, plain_move(fr, fc, tr, tc));
    }
}

proof fn lemma_knight_sound(g: Seq<Piece>, side: bool, r: int, c: int)
    requires
        on_board(r, c),
        owned_by(cell(g, r, c), side),
        cell(g, r, c).symbol != Symbol::King,
    ensures
        all_sound(g, side, knight_moves(g, r, c)),
{
    let s1 = step_move(g, r, c, r - 2, c - 1);
    let s2 = step_move(g, r, c, r - 2, c + 1);
    let s3 = step_move(g, r, c, r - 1, c - 2);
    let s4 = step_move(g, r, c, r + 1, c - 2);
    let s5 = step_move(g, r, c, r + 2, c - 1);
    let s6 = step_move(g, r, c, r + 2, c + 1);
    let s7 = step_move(g, r, c, r + 1, c + 2);
    let s8 = step_move(g, r, c, r - 1, c + 2);
    lemma_step_sound(g, side, r, c, r - 2, c - 1);
    lemma_step_sound(g, side, r, c, r - 2, c + 1);
    lemma_step_sound(g, side, r, c, r - 1, c - 2);
    lemma_step_sound(g, side, r, c, r + 1, c - 2);
    lemma_step_sound(g, side, r, c, r + 2, c - 1);
    lemma_step_sound(g, side, r, c, r + 2, c + 1);
    lemma_step_sound(g, side, r, c, r + 1, c + 2);
    lemma_step_sound(g, side, r, c, r - 1, c + 2);
    lemma_concat_sound(g, side, s1, s2);
    lemma_concat_sound(g, side, s1 + s2, s3);
    lemma_concat_sound(g, side, s1 + s2 + s3, s4);
    lemma_concat_sound(g, side, s1 + s2 + s3 + s4, s5);
    lemma_concat_sound(g, side, s1 + s2 + s3 + s4 + s5, s6);
    lemma_concat_sound(g, side, s1 + s2 + s3 + s4 + s5 + s6, s7);
    lemma_concat_sound(g, side, s1 + s2 + s3 + s4 + s5 + s6 + s7, s8);
}

/// Walking from `(fr, fc)` in steps of `(dr, dc)` has led to `(r, c)`, or not yet left.
pub open spec fn leads_away(fr: int, fc: int, r: int, c: int, dr: int, dc: int) -> bool {
    &&& dr != 0 || dc != 0
    &&& dr > 0 ==> r >= fr
    &&& dr < 0 ==> r <= fr
    &&& dr == 0 && dc > 0 ==> c >= fc
    &&& dr == 0 && dc < 0 ==> c <= fc
}

proof fn lemma_ray_sound(
    g: Seq<Piece>,
    side: bool,
    fr: int,
    fc: int,
    r: int,
    c: int,
    dr: int,
    dc: int,
    reach: nat,
)
    requires
        on_board(fr, fc),
        owned_by(cell(g, fr, fc), side),
        cell(g, fr, fc).symbol != Symbol::King,
        leads_away(fr, fc, r, c, dr, dc),
    ensures
        all_sound(g, side, ray_moves(g, fr, fc, r, c, dr, dc, reach)),
    decreases reach,
{
    let target = cell(g, r + dr, c + dc);
    let blocked = !target.is_empty && (target.color == side || target.symbol == Symbol::King);
    if reach != 0 && on_board(r + dr, c + dc) && !blocked {
        let step = plain_move(fr, fc, r + dr, c + dc);
        lemma_kept_sound(g, side, step);
        if target.is_empty {
            lemma_ray_sound(g, side, fr, fc, r + dr, c + dc, dr, dc, (reach - 1) as nat);
            lemma_concat_sound(
                g,
                side,
                kept(g, step),
                ray_moves(g, fr, fc, r + dr, c + dc, dr, dc, (reach - 1) as nat),
            );
        }
    }
}

proof fn lemma_long_ray_sound(g: Seq<Piece>, side: bool, r: int, c: int, d: Seq<(i8, i8)>)
    requires
        on_board(r, c),
        owned_by(cell(g, r, c), side),
        cell(g, r, c).symbol != Symbol::King,
        forall|i: int| 0 <= i < 4 ==> (#[trigger] d[i]).0 != 0 || d[i].1 != 0,
    ensures
        all_sound(g, side, long_ray_moves(g, r, c, d)),
{
    let r0 = ray_moves(g, r, c, r, c, d[0].0 as int, d[0].1 as int, 7);
    let r1 = ray_moves(g, r, c, r, c, d[1].0 as int, d[1].1 as int, 7);
    let r2 = ray_moves(g, r, c, r, c, d[2].0 as int, d[2].1 as int, 7);
    let r3 = ray_moves(g, r, c, r, c, d[3].0 as int, d[3].1 as int, 7);
    lemma_ray_sound(g, side, r, c, r, c, d[0].0 as int, d[0].1 as int, 7);
    lemma_ray_sound(g, side, r, c, r, c, d[1].0 as int, d[1].1 as int, 7);
    lemma_ray_sound(g, side, r, c, r, c, d[2].0 as int, d[2].1 as int, 7);
    lemma_ray_sound(g, side, r, c, r, c, d[3].0 as int, d[3].1 as int, 7);
    lemma_concat_sound(g, side, r0, r1);
    lemma_concat_sound(g, side, r0 + r1, r2);
    lemma_concat_sound(g, side, r0 + r1 + r2, r3);
}

proof fn lemma_pawn_entry_sound(g: Seq<Piece>, side: bool, m: Move, rank: int)
    requires
        g.len() == 64,
        move_shape(g, side, m),
        !m.castle,
        m.promotion == Promotion::NoPromotion,
        cell(g, m.current_square.0 as int, m.current_square.1 as int).symbol == Symbol::Pawn,
    ensures
        all_sound(g, side, pawn_entry(g, m, rank)),
{
    lemma_promotion_keeps_filter(g, m, Promotion::Queen);
    lemma_promotion_keeps_filter(g, m, Promotion::Rook);
    lemma_promotion_keeps_filter(g, m, Promotion::Bishop);
    lemma_promotion_keeps_filter(g, m, Promotion::Knight);
}

proof fn lemma_pawn_sound(g: Seq<Piece>, side: bool, r: int, c: int)
    requires
        g.len() == 64,
        on_board(r, c),
        owned_by(cell(g, r, c), side),
        cell(g, r, c).symbol == Symbol::Pawn,
    ensures
        all_sound(g, side, pawn_moves(g, r, c)),
{
    let row = r + forward(side);
    let far = r + 2 * forward(side);
    let rank = last_rank(side);
    let single = pawn_push(g, r, c);
    let double = pawn_double_push(g, r, c);
    let right = pawn_capture(g, r, c, c + 1);
    let left = pawn_capture(g, r, c, c - 1);
    if on_board(row, c) && cell(g, row, c).is_empty {
        lemma_pawn_entry_sound(g, side, plain_move(r, c, row, c), rank);
    }
    if on_board(far, c) && cell(g, row, c).is_empty && cell(g, far, c).is_empty && !cell(
        g,
        r,
        c,
    ).has_moved {
        lemma_pawn_entry_sound(g, side, plain_move(r, c, far, c), rank);
    }
    if on_board(row, c + 1) && !cell(g, row, c + 1).is_empty && cell(g, row, c + 1).color != side
        && cell(g, row, c + 1).symbol != Symbol::King {
        lemma_pawn_entry_sound(g, side, plain_move(r, c, row, c + 1), rank);
    }
    if on_board(row, c - 1) && !cell(g, row, c - 1).is_empty && cell(g, row, c - 1).color != side
        && cell(g, row, c - 1).symbol != Symbol::King {
        lemma_pawn_entry_sound(g, side, plain_move(r, c, row, c - 1), rank);
    }
    lemma_concat_sound(g, side, single, double);
    lemma_concat_sound(g, side, single + double, right);
    lemma_concat_sound(g, side, single + double + right, left);
}

proof fn lemma_king_step_sound(g: Seq<Piece>, side: bool, fr: int, fc: int, tr: int, tc: int)
    requires
        on_board(fr, fc),
        owned_by(cell(g, fr, fc), side),
        fr != tr || fc != tc,
    ensures
        all_sound(g, side, king_step(g, fr, fc, tr, tc)),
{
    if can_land(g, tr, tc, side) && !near_king(g, tr, tc, !side) {
        lemma_kept_sound(g, side, plain_move(fr, fc, tr, tc));
    }
}

proof fn lemma_castling_sound(g: Seq<Piece>, side: bool)
    ensures
        all_sound(g, side, castling_moves(g, side)),
{
    lemma_king_index(g, side, 0);
    if king_ready(g, side) && rook_ready(g, side, 0) && cell(g, home_row(side), 1).is_empty
        && king_may_cross(g, side, 3) && king_may_cross(g, side, 2) {
        lemma_kept_sound(g, side, castle_move(side, 2));
    }
    if king_ready(g, side) && rook_ready(g, side, 7) && king_may_cross(g, side, 5)
        && king_may_cross(g, side, 6) {
        lemma_kept_sound(g, side, castle_move(side, 6));
    }
    lemma_concat_sound(g, side, queenside_castle(g, side), kingside_castle(g, side));
}

proof fn lemma_king_sound(g: Seq<Piece>, side: bool, r: int, c: int)
    requires
        on_board(r, c),
        owned_by(cell(g, r, c), side),
    ensures
        all_sound(g, side, king_moves(g, r, c)),
{
    let s1 = king_step(g, r, c, r + 1, c + 1);
    let s2 = king_step(g, r, c, r + 1, c);
    let s3 = king_step(g, r, c, r + 1, c - 1);
    let s4 = king_step(g, r, c, r, c + 1);
    let s5 = king_step(g, r, c, r, c - 1);
    let s6 = king_step(g, r, c, r - 1, c + 1);
    let s7 = king_step(g, r, c, r - 1, c);
    let s8 = king_step(g, r, c, r - 1, c - 1);
    lemma_king_step_sound(g, side, r, c, r + 1, c + 1);
    lemma_king_step_sound(g, side, r, c, r + 1, c);
    lemma_king_step_sound(g, side, r, c, r + 1, c - 1);
    lemma_king_step_sound(g, side, r, c, r, c + 1);
    lemma_king_step_sound(g, side, r, c, r, c - 1);
    lemma_king_step_sound(g, side, r, c, r - 1, c + 1);
    lemma_king_step_sound(g, side, r, c, r - 1, c);
    lemma_king_step_sound(g, side, r, c, r - 1, c - 1);
    lemma_concat_sound(g, side, s1, s2);
    lemma_concat_sound(g, side, s1 + s2, s3);
    lemma_concat_sound(g, side, s1 + s2 + s3, s4);
    lemma_concat_sound(g, side, s1 + s2 + s3 + s4, s5);
    lemma_concat_sound(g, side, s1 + s2 + s3 + s4 + s5, s6);
    lemma_concat_sound(g, side, s1 + s2 + s3 + s4 + s5 + s6, s7);
    lemma_concat_sound(g, side, s1 + s2 + s3 + s4 + s5 + s6 + s7, s8);
    lemma_castling_sound(g, side);
    lemma_concat_sound(g, side, king_steps(g, r, c), castling_moves(g, side));
}

/// Every move that a piece of `side` is given is sound.
pub proof fn lemma_piece_moves_sound(g: Seq<Piece>, side: bool, r: int, c: int)
    requires
        g.len() == 64,
        on_board(r, c),
        owned_by(cell(g, r, c), side),
    ensures
        all_sound(g, side, piece_moves(g, r, c)),
{
    match cell(g, r, c).symbol {
        Symbol::Pawn => lemma_pawn_sound(g, side, r, c),
        Symbol::Bishop => lemma_long_ray_sound(g, side, r, c, bishop_directions()),
        Symbol::Knight => lemma_knight_sound(g, side, r, c),
        Symbol::Rook => lemma_long_ray_sound(g, side, r, c, rook_directions()),
        Symbol::Queen => {
            lemma_long_ray_sound(g, side, r, c, rook_directions());
            lemma_long_ray_sound(g, side, r, c, bishop_directions());
            lemma_concat_sound(g, side, rook_moves(g, r, c), bishop_moves(g, r, c));
        },
        Symbol::King => lemma_king_sound(g, side, r, c),
        Symbol::Empty => {},
    }
}

proof fn lemma_moves_upto_sound(g: Seq<Piece>, side: bool, n: int)
    requires
        g.len() == 64,
        n <= 64,
    ensures
        all_sound(g, side, moves_upto(g, side, n)),
    decreases n,
{
    if n > 0 {
        lemma_moves_upto_sound(g, side, n - 1);
        if owned_by(g[n - 1], side) {
            lemma_piece_moves_sound(g, side, (n - 1) / 8, (n - 1) % 8);
            lemma_concat_sound(
                g,
                side,
                moves_upto(g, side, n - 1),
                piece_moves(g, (n - 1) / 8, (n - 1) % 8),
            );
        }
    }
}

/// Every legal move is sound.
pub proof fn lemma_legal_moves_sound(g: Seq<Piece>, side: bool)
    requires
        g.len() == 64,
    ensures
        all_sound(g, side, legal_moves(g, side)),
{
    reveal(legal_moves);
    lemma_moves_upto_sound(g, side, 64);
}

/// How many kings of `color` stand on the first `n` cells.
pub open spec fn king_count(g: Seq<Piece>, color: bool, n: int) -> int
    decreases n,
{
    if n <= 0 {
        0
    } else if is_king_of(g[n - 1], color) {
        king_count(g, color, n - 1) + 1
    } else {
        king_count(g, color, n - 1)
    }
}

/// One if the piece is the king of `color`, zero otherwise.
pub open spec fn king_weight(p: Piece, color: bool) -> int {
    if is_king_of(p, color) {
        1
    } else {
        0
    }
}

proof fn lemma_count_update(g: Seq<Piece>, color: bool, i: int, p: Piece, n: int)
    requires
        0 <= i < g.len(),
        0 <= n <= g.len(),
    ensures
        king_count(g.update(i, p), color, n) == king_count(g, color, n) + (if i < n {
            king_weight(p, color) - king_weight(g[i], color)
        } else {
            0
        }),
    decreases n,
{
    if n > 0 {
        lemma_count_update(g, color, i, p, n - 1);
    }
}

/// Where cell `k` alone holds the king of `color`, the first `n` cells count one king if
/// `k` is among them and none otherwise.
pub proof fn lemma_count_where(g: Seq<Piece>, color: bool, k: int, n: int)
    requires
        0 <= n <= g.len(),
        forall|i: int| 0 <= i < n ==> (is_king_of(#[trigger] g[i], color) <==> i == k),
    ensures
        king_count(g, color, n) == (if 0 <= k < n {
            1int
        } else {
            0int
        }),
    decreases n,
{
    if n > 0 {
        lemma_count_where(g, color, k, n - 1);
    }
}

/// A move of the shape of a legal move neither takes a king off the board nor adds one.
pub proof fn lemma_move_keeps_kings(g: Seq<Piece>, side: bool, m: Move, color: bool)
    requires
        g.len() == 64,
        move_shape(g, side, m),
    ensures
        king_count(after_move(g, m), color, 64) == king_count(g, color, 64),
{
    reveal(after_move);
    let (fr, fc) = (m.current_square.0 as int, m.current_square.1 as int);
    let (tr, tc) = (m.destination_square.0 as int, m.destination_square.1 as int);
    let mover = cell(g, fr, fc);
    let g1 = g.update(8 * tr + tc, carried(mover, tr, tc));
    let g2 = g1.update(8 * fr + fc, empty_piece(fr, fc));
    lemma_count_update(g, color, 8 * tr + tc, carried(mover, tr, tc), 64);
    lemma_count_update(g1, color, 8 * fr + fc, empty_piece(fr, fc), 64);
    let g4 = castled(g2, m);
    if m.castle {
        let land = 8 * fr + rook_landing_col(m);
        let home = 8 * fr + rook_home_col(m);
        let rook = cell(g2, fr, rook_home_col(m));
        let g3 = g2.update(land, carried(rook, fr, rook_landing_col(m)));
        lemma_count_update(g2, color, land, carried(rook, fr, rook_landing_col(m)), 64);
        lemma_count_update(g3, color, home, empty_piece(fr, rook_home_col(m)), 64);
    }
    if m.promotion != Promotion::NoPromotion {
        lemma_count_update(
            g4,
            color,
            8 * tr + tc,
            promoted_piece(promotion_kind(m.promotion), mover_color(g, m), tr, tc),
            64,
        );
    }
}

/// A side has a king exactly if its count of kings is positive.
pub proof fn lemma_has_king_iff_counted(g: Seq<Piece>, color: bool)
    ensures
        has_king(g, color) <==> king_count(g, color, 64) > 0,
{
    lemma_king_index(g, color, 0);
    lemma_count_positive(g, color, 64);
    if king_count(g, color, 64) > 0 {
        let i = choose|i: int| 0 <= i < 64 && is_king_of(g[i], color);
        lemma_has_king(g, color, i);
    }
}

proof fn lemma_count_positive(g: Seq<Piece>, color: bool, n: int)
    ensures
        0 <= king_count(g, color, n),
        king_count(g, color, n) > 0 <==> exists|i: int| 0 <= i < n && is_king_of(g[i], color),
    decreases n,
{
    if n > 0 {
        lemma_count_positive(g, color, n - 1);
    }
}

/// A move of the shape of a legal move leaves each side that has a king its king.
pub proof fn lemma_move_keeps_has_king(g: Seq<Piece>, side: bool, m: Move, color: bool)
    requires
        g.len() == 64,
        move_shape(g, side, m),
        has_king(g, color),
    ensures
        has_king(after_move(g, m), color),
{
    lemma_has_king_iff_counted(g, color);
    lemma_move_keeps_kings(g, side, m, color);
    lemma_has_king_iff_counted(after_move(g, m), color);
}

proof fn lemma_count_grows(g: Seq<Piece>, color: bool, a: int, b: int)
    requires
        a <= b,
    ensures
        0 <= king_count(g, color, a) <= king_count(g, color, b),
    decreases b - a,
{
    lemma_count_positive(g, color, a);
    if a < b {
        lemma_count_grows(g, color, a, b - 1);
    }
}

/// A side that counts one king has it on the one cell that holds a king of its colour.
pub proof fn lemma_only_king(g: Seq<Piece>, color: bool, at: int)
    requires
        king_count(g, color, 64) == 1,
        0 <= at < 64,
        is_king_of(g[at], color),
    ensures
        king_index(g, color) == at,
        forall|i: int| 0 <= i < 64 && is_king_of(#[trigger] g[i], color) ==> i == at,
{
    assert forall|i: int| 0 <= i < 64 && is_king_of(#[trigger] g[i], color) implies i == at by {
        if i != at {
            let lo = if i < at { i } else { at };
            let hi = if i < at { at } else { i };
            lemma_count_grows(g, color, 0, lo);
            lemma_count_grows(g, color, lo + 1, hi);
            lemma_count_grows(g, color, hi + 1, 64);
        }
    }
    lemma_has_king(g, color, at);
    lemma_king_index(g, color, 0);
}

/// Where the kings stand after a move of the shape of a legal move: those of
/// the other side where they stood, that of the side that moved on the
/// destination if it was the king that moved.
pub proof fn lemma_kings_after_move(g: Seq<Piece>, side: bool, m: Move)
    requires
        g.len() == 64,
        move_shape(g, side, m),
    ensures
        after_move(g, m).len() == 64,
        forall|i: int|
            0 <= i < 64 ==> is_king_of(#[trigger] after_move(g, m)[i], !side) == is_king_of(
                g[i],
                !side,
            ),
        forall|i: int|
            0 <= i < 64 ==> is_king_of(#[trigger] after_move(g, m)[i], side) == (if i == 8
                * m.destination_square.0 + m.destination_square.1 {
                is_king_of(cell(g, m.current_square.0 as int, m.current_square.1 as int), side)
            } else if i == 8 * m.current_square.0 + m.current_square.1 {
                false
            } else {
                is_king_of(g[i], side)
            }),
{
    reveal(after_move);
}

} // verus!
