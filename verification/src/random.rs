//! A move picked at random, for an opponent that plays without thinking.

use crate::attack::has_king;
use crate::pieces_logic::{Move, Piece};
use crate::position::grid;
use crate::rules::{get_all_legal_moves_for_this_turn, legal_moves};
use rand::seq::IndexedRandom;
use vstd::prelude::*;

verus! {

/// Calls `rand::seq::IndexedRandom::choose` on the moves, with the generator
/// of the current thread that `rand::rng` hands out.
///
/// Trusted, as `choose` is written: it returns nothing for an empty slice and
/// otherwise the element at an index below the length. Which element is left
/// to chance, so nothing more is claimed. `rand::rng` panics if the system
/// cannot seed the generator; no argument of this function has a part in that.
#[verifier::external_body]
fn pick(moves: &Vec<Move>) -> (picked: Option<Move>)
    ensures
        moves@.len() == 0 ==> picked is None,
        moves@.len() > 0 ==> picked is Some && moves@.contains(picked->0),
{
    moves.choose(&mut rand::rng()).copied()
}

/// One of the legal moves of `side`, picked at random; none if there is none.
pub fn random_legal_move(board: &[[Piece; 8]; 8], side: bool) -> (picked: Option<Move>)
    requires
        has_king(grid(*board), side),
    ensures
        picked is Some <==> legal_moves(grid(*board), side).len() > 0,
        picked matches Some(m) ==> legal_moves(grid(*board), side).contains(m),
{
    let moves = get_all_legal_moves_for_this_turn(board, side);
    pick(&moves)
}

} // verus!
