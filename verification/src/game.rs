//! The decisions of a game between a player who types moves and an opponent:
//! whether the side to move can go on, and whether a typed move may be played.

use crate::attack::{has_king, in_check, is_king_in_check};
use crate::notation::{parse_uci, universal_chess_interface_to_move};
use crate::ordering::same_move;
use crate::pieces_logic::{Move, Piece};
use crate::position::grid;
use crate::rules::{get_all_legal_moves_for_this_turn, legal_moves};
use vstd::prelude::*;

verus! {

/// What the side to move faces.
#[derive(Debug, PartialEq, Eq, Clone, Copy, Structural)]
pub enum TurnState {
    /// It has a legal move.
    ToMove,
    /// It is in check and has no legal move: the other side has won.
    Checkmated,
    /// It is not in check and has no legal move: the game is drawn.
    Stalemated,
}

/// What `side`, to move on `g`, faces.
pub open spec fn turn_state_of(g: Seq<Piece>, side: bool) -> TurnState {
    if legal_moves(g, side).len() > 0 {
        TurnState::ToMove
    } else if in_check(g, side) {
        TurnState::Checkmated
    } else {
        TurnState::Stalemated
    }
}

/// The message for a move that is well written but not legal.
pub open spec fn not_legal() -> Seq<char> {
    "Not a legal move..."@
}

/// What the text `s` gives when `side` is to move on `g`: the move it names
/// if that is a legal move, or the message that says why not.
pub open spec fn legal_move_named(g: Seq<Piece>, side: bool, s: Seq<char>) -> Result<
    Move,
    Seq<char>,
> {
    match parse_uci(g, s) {
        Ok(m) => if legal_moves(g, side).contains(m) {
            Ok(m)
        } else {
            Err(not_legal())
        },
        Err(message) => Err(message),
    }
}

/// What `side`, to move, faces.
pub fn turn_state(board: &[[Piece; 8]; 8], side: bool) -> (state: TurnState)
    requires
        has_king(grid(*board), side),
    ensures
        state == turn_state_of(grid(*board), side),
{
    if get_all_legal_moves_for_this_turn(board, side).len() > 0 {
        TurnState::ToMove
    } else if is_king_in_check(board, side) {
        TurnState::Checkmated
    } else {
        TurnState::Stalemated
    }
}

/// Whether `move_` is one of the legal moves of `side`.
pub fn is_legal_move(board: &[[Piece; 8]; 8], side: bool, move_: &Move) -> (legal: bool)
    requires
        has_king(grid(*board), side),
    ensures
        legal == legal_moves(grid(*board), side).contains(*move_),
{
    let moves = get_all_legal_moves_for_this_turn(board, side);
    let mut i: usize = 0;
    while i < moves.len()
        invariant
            i <= moves@.len(),
            moves@ == legal_moves(grid(*board), side),
            forall|k: int| 0 <= k < i ==> moves@[k] != *move_,
        decreases moves@.len() - i,
    {
        if same_move(&moves[i], move_) {
            return true;
        }
        i += 1;
    }
    false
}

/// Reads a typed move and lets it through only if it is a legal move of `side`.
pub fn read_legal_move(board: &[[Piece; 8]; 8], side: bool, uci: String) -> (result: Result<
    Move,
    &'static str,
>)
    requires
        has_king(grid(*board), side),
    ensures
        match result {
            Ok(m) => legal_move_named(grid(*board), side, uci@) == Ok::<Move, Seq<char>>(m),
            Err(message) => legal_move_named(grid(*board), side, uci@) == Err::<Move, Seq<char>>(
                message@,
            ),
        },
{
    match universal_chess_interface_to_move(board, uci) {
        Ok(m) => {
            if is_legal_move(board, side, &m) {
                Ok(m)
            } else {
                Err("Not a legal move...")
            }
        },
        Err(message) => Err(message),
    }
}

} // verus!
