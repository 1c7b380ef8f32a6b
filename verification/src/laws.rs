//! Laws of the rules engine, each proved from the contracts of the crate.

use crate::attack::{exposes_king, in_check, is_king_of, king_index, lemma_king_index};
use crate::chess_board::initial_grid;
use crate::legality::{
    king_count, lemma_count_where, lemma_has_king_iff_counted, lemma_kings_after_move,
    lemma_legal_moves_sound, lemma_move_keeps_kings, lemma_only_king,
};
use crate::moves::near_king;
use crate::pieces_logic::{Move, Piece};
use crate::position::{after_move, mover_color};
use crate::rules::{checkmate, legal_moves, stalemate};
use crate::zobrist::{law_updated_hash_equals_recomputed, zobrist, zobrist_after};
use vstd::prelude::*;

verus! {

/// Exactly one king of each colour stands on the board.
pub open spec fn one_king_each(g: Seq<Piece>) -> bool {
    king_count(g, true, 64) == 1 && king_count(g, false, 64) == 1
}

/// The kings do not stand next to each other.
pub open spec fn kings_apart(g: Seq<Piece>) -> bool {
    &&& !near_king(g, king_index(g, true) / 8, king_index(g, true) % 8, false)
    &&& !near_king(g, king_index(g, false) / 8, king_index(g, false) % 8, true)
}

/// The position after the moves of `line` have been applied to `g` in turn.
pub open spec fn play(g: Seq<Piece>, line: Seq<Move>) -> Seq<Piece>
    decreases line.len(),
{
    if line.len() == 0 {
        g
    } else {
        after_move(play(g, line.drop_last()), line.last())
    }
}

/// The side to move after `n` moves when `first` began.
pub open spec fn side_after(first: bool, n: int) -> bool {
    if n % 2 == 0 {
        first
    } else {
        !first
    }
}

/// Every move of `line` is a legal move of the side to move, in the position
/// in which it is made; the sides take turns, and `first` begins.
pub open spec fn legal_line(g: Seq<Piece>, first: bool, line: Seq<Move>) -> bool
    decreases line.len(),
{
    if line.len() == 0 {
        true
    } else {
        &&& legal_line(g, first, line.drop_last())
        &&& legal_moves(
            play(g, line.drop_last()),
            side_after(first, line.len() - 1),
        ).contains(line.last())
    }
}

/// The hash carried along `line` from `g` with `first` to move: computed
/// afresh at the start and updated move by move.
pub open spec fn hash_along(g: Seq<Piece>, first: bool, line: Seq<Move>) -> u64
    decreases line.len(),
{
    if line.len() == 0 {
        zobrist(g, first)
    } else {
        zobrist_after(
            hash_along(g, first, line.drop_last()),
            play(g, line.drop_last()),
            line.last(),
        )
    }
}

/// At the start of a game each side has exactly one king.
pub proof fn law_initial_position_has_one_king_each()
    ensures
        one_king_each(initial_grid()),
{
    lemma_count_where(initial_grid(), true, 60, 64);
    lemma_count_where(initial_grid(), false, 4, 64);
}

/// A legal move keeps exactly one king of each colour on the board.
pub proof fn law_legal_move_keeps_one_king_each(g: Seq<Piece>, side: bool, m: Move)
    requires
        g.len() == 64,
        one_king_each(g),
        legal_moves(g, side).contains(m),
    ensures
        after_move(g, m).len() == 64,
        one_king_each(after_move(g, m)),
{
    reveal(after_move);
    lemma_legal_moves_sound(g, side);
    lemma_move_keeps_kings(g, side, m, true);
    lemma_move_keeps_kings(g, side, m, false);
}

/// In every position reached from the start of a game by legal moves, White
/// moving first, each side has exactly one king.
pub proof fn law_one_king_each_in_every_game(line: Seq<Move>)
    requires
        legal_line(initial_grid(), true, line),
    ensures
        play(initial_grid(), line).len() == 64,
        one_king_each(play(initial_grid(), line)),
    decreases line.len(),
{
    if line.len() == 0 {
        law_initial_position_has_one_king_each();
    } else {
        law_one_king_each_in_every_game(line.drop_last());
        law_legal_move_keeps_one_king_each(
            play(initial_grid(), line.drop_last()),
            side_after(true, line.len() - 1),
            line.last(),
        );
    }
}

/// Along any line of legal moves, the hash that is updated move by move equals
/// the hash computed afresh from the position reached.
pub proof fn law_updated_hash_along_a_line(g: Seq<Piece>, first: bool, line: Seq<Move>)
    requires
        g.len() == 64,
        legal_line(g, first, line),
    ensures
        play(g, line).len() == 64,
        hash_along(g, first, line) == zobrist(play(g, line), side_after(first, line.len() as int)),
    decreases line.len(),
{
    if line.len() > 0 {
        let before = play(g, line.drop_last());
        let side = side_after(first, line.len() - 1);
        law_updated_hash_along_a_line(g, first, line.drop_last());
        law_updated_hash_equals_recomputed(before, side, line.last());
        assert(after_move(before, line.last()).len() == 64) by {
            lemma_legal_moves_sound(before, side);
            reveal(after_move);
        }
    }
}

/// At the start of a game the kings stand apart.
pub proof fn law_initial_kings_stand_apart()
    ensures
        kings_apart(initial_grid()),
{
    law_initial_position_has_one_king_each();
    lemma_only_king(initial_grid(), true, 60);
    lemma_only_king(initial_grid(), false, 4);
}

/// Kings that stand apart still stand apart after a legal move.
pub proof fn law_legal_move_keeps_kings_apart(g: Seq<Piece>, side: bool, m: Move)
    requires
        g.len() == 64,
        one_king_each(g),
        kings_apart(g),
        legal_moves(g, side).contains(m),
    ensures
        kings_apart(after_move(g, m)),
{
    lemma_legal_moves_sound(g, side);
    let after = after_move(g, m);
    let from = 8 * m.current_square.0 + m.current_square.1;
    let to = 8 * m.destination_square.0 + m.destination_square.1;
    lemma_has_king_iff_counted(g, side);
    lemma_has_king_iff_counted(g, !side);
    lemma_king_index(g, side, 0);
    lemma_king_index(g, !side, 0);
    let own = king_index(g, side);
    let other = king_index(g, !side);
    let own_after = if own == from { to } else { own };
    assert(king_count(after, true, 64) == 1 && king_count(after, false, 64) == 1) by {
        lemma_move_keeps_kings(g, side, m, true);
        lemma_move_keeps_kings(g, side, m, false);
    }
    assert(is_king_of(after[own_after], side) && is_king_of(after[other], !side) && (forall|i: int|
        0 <= i < 64 ==> is_king_of(#[trigger] after[i], !side) == is_king_of(g[i], !side))) by {
        lemma_only_king(g, side, own);
        lemma_kings_after_move(g, side, m);
    }
    lemma_apart(g, after, side, own_after, other);
}

/// In every position reached from the start of a game by legal moves, White
/// moving first, the kings stand apart.
pub proof fn law_kings_stand_apart_in_every_game(line: Seq<Move>)
    requires
        legal_line(initial_grid(), true, line),
    ensures
        kings_apart(play(initial_grid(), line)),
    decreases line.len(),
{
    if line.len() == 0 {
        law_initial_kings_stand_apart();
    } else {
        law_kings_stand_apart_in_every_game(line.drop_last());
        law_one_king_each_in_every_game(line.drop_last());
        law_legal_move_keeps_kings_apart(
            play(initial_grid(), line.drop_last()),
            side_after(true, line.len() - 1),
            line.last(),
        );
    }
}

/// No legal move leaves the king of the side that made it in check.
pub proof fn law_legal_moves_leave_king_safe(g: Seq<Piece>, side: bool, m: Move)
    requires
        g.len() == 64,
        legal_moves(g, side).contains(m),
    ensures
        mover_color(g, m) == side,
        !in_check(after_move(g, m), side),
{
    lemma_legal_moves_sound(g, side);
    reveal(exposes_king);
}

/// A side that is checkmated is in check and has no legal move; a side that is
/// stalemated is not in check and has no legal move; no side is both.
pub proof fn law_checkmate_and_stalemate(g: Seq<Piece>, side: bool)
    ensures
        checkmate(g, side) ==> legal_moves(g, side).len() == 0 && in_check(g, side),
        stalemate(g, side) ==> legal_moves(g, side).len() == 0 && !in_check(g, side),
        !(checkmate(g, side) && stalemate(g, side)),
        legal_moves(g, side).len() == 0 ==> checkmate(g, side) || stalemate(g, side),
{
}

/// Generating twice gives the same moves: two results that meet the
/// generator's contract on equal positions are the same sequence, and so hold
/// the same set of moves.
pub proof fn law_generation_is_repeatable(
    g1: Seq<Piece>,
    g2: Seq<Piece>,
    side: bool,
    first: Seq<Move>,
    second: Seq<Move>,
)
    requires
        g1 == g2,
        first == legal_moves(g1, side),
        second == legal_moves(g2, side),
    ensures
        first == second,
        first.to_set() == second.to_set(),
{
}

/// The kings of `after` stand apart if each side has one king, the king of
/// `side` is not next to a square that held the other king in `g`, and the
/// other king stands where it stood in `g`.
proof fn lemma_apart(g: Seq<Piece>, after: Seq<Piece>, side: bool, own: int, other: int)
    requires
        0 <= own < 64,
        0 <= other < 64,
        king_count(after, side, 64) == 1,
        king_count(after, !side, 64) == 1,
        is_king_of(after[own], side),
        is_king_of(after[other], !side),
        forall|i: int|
            0 <= i < 64 ==> is_king_of(#[trigger] after[i], !side) == is_king_of(g[i], !side),
        !near_king(g, own / 8, own % 8, !side),
    ensures
        kings_apart(after),
{
    lemma_only_king(after, side, own);
    lemma_only_king(after, !side, other);
    lemma_near_king_alike(g, after, own / 8, own % 8, !side);
    lemma_neighbours(after, side, own, other);
}

/// Positions with the kings of a colour on the same cells have that king next to the same squares.
proof fn lemma_near_king_alike(g1: Seq<Piece>, g2: Seq<Piece>, r: int, c: int, color: bool)
    requires
        forall|i: int|
            0 <= i < 64 ==> is_king_of(#[trigger] g2[i], color) == is_king_of(g1[i], color),
    ensures
        near_king(g2, r, c, color) == near_king(g1, r, c, color),
{
}

/// If the only king of `color` is not next to the square of the other king,
/// then that king is not next to the square of the king of `color`.
proof fn lemma_neighbours(g: Seq<Piece>, color: bool, own: int, other: int)
    requires
        0 <= own < 64,
        0 <= other < 64,
        is_king_of(g[other], !color),
        forall|i: int| 0 <= i < 64 && is_king_of(#[trigger] g[i], color) ==> i == own,
        !near_king(g, own / 8, own % 8, !color),
    ensures
        !near_king(g, other / 8, other % 8, color),
{
}

} // verus!
