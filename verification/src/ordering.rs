//! Move ordering for the search: the remembered move first, then captures,
//! promotions and castle moves by what they win, then the quiet moves.

use crate::evaluation::material;
use crate::pieces_logic::{Move, Piece, piece_at, Promotion, Symbol};
use crate::position::{cell, grid, move_on_board, promotion_kind};
use vstd::prelude::*;

verus! {

/// A move that captures, promotes or castles.
pub open spec fn is_tactical(g: Seq<Piece>, m: Move) -> bool {
    ||| !cell(g, m.destination_square.0 as int, m.destination_square.1 as int).is_empty
    ||| m.promotion != Promotion::NoPromotion
    ||| m.castle
}

/// What a move wins at once: the material it captures and the material it promotes to.
pub open spec fn tactical_value(g: Seq<Piece>, m: Move) -> int {
    let victim = cell(g, m.destination_square.0 as int, m.destination_square.1 as int);
    (if victim.is_empty {
        0
    } else {
        material(victim.symbol)
    }) + material(promotion_kind(m.promotion))
}

/// Where `m` goes into a sequence sorted by falling value: behind every move
/// at or after index `from` that is worth at least as much.
pub open spec fn insertion_point(g: Seq<Piece>, sorted: Seq<Move>, m: Move, from: int) -> int
    decreases sorted.len() - from,
{
    if from < 0 || from >= sorted.len() || tactical_value(g, sorted[from]) < tactical_value(g, m) {
        from
    } else {
        insertion_point(g, sorted, m, from + 1)
    }
}

/// `sorted` with `m` put in at its place.
pub open spec fn inserted(g: Seq<Piece>, sorted: Seq<Move>, m: Move) -> Seq<Move> {
    sorted.insert(insertion_point(g, sorted, m, 0), m)
}

/// The remembered move occurs among the first `n` moves.
pub open spec fn hint_upto(moves: Seq<Move>, hint: Option<Move>, n: int) -> bool
    decreases n,
{
    if n <= 0 {
        false
    } else {
        hint_upto(moves, hint, n - 1) || hint == Some(moves[n - 1])
    }
}

/// The tactical moves among the first `n`, the remembered move left out,
/// sorted by falling value; moves of equal value keep their order.
pub open spec fn tactical_upto(g: Seq<Piece>, moves: Seq<Move>, hint: Option<Move>, n: int) -> Seq<
    Move,
>
    decreases n,
{
    if n <= 0 {
        Seq::empty()
    } else if hint != Some(moves[n - 1]) && is_tactical(g, moves[n - 1]) {
        inserted(g, tactical_upto(g, moves, hint, n - 1), moves[n - 1])
    } else {
        tactical_upto(g, moves, hint, n - 1)
    }
}

/// The moves among the first `n` that are neither tactical nor the remembered move, in order.
pub open spec fn quiet_upto(g: Seq<Piece>, moves: Seq<Move>, hint: Option<Move>, n: int) -> Seq<
    Move,
>
    decreases n,
{
    if n <= 0 {
        Seq::empty()
    } else if hint != Some(moves[n - 1]) && !is_tactical(g, moves[n - 1]) {
        quiet_upto(g, moves, hint, n - 1).push(moves[n - 1])
    } else {
        quiet_upto(g, moves, hint, n - 1)
    }
}

/// The remembered move alone if it occurs among `moves`, nothing otherwise.
pub open spec fn hinted(moves: Seq<Move>, hint: Option<Move>) -> Seq<Move> {
    if hint_upto(moves, hint, moves.len() as int) {
        seq![hint->0]
    } else {
        Seq::empty()
    }
}

/// `moves` in the order in which the search tries them.
#[verifier::opaque]
pub open spec fn ordered(g: Seq<Piece>, moves: Seq<Move>, hint: Option<Move>) -> Seq<Move> {
    hinted(moves, hint) + tactical_upto(g, moves, hint, moves.len() as int) + quiet_upto(
        g,
        moves,
        hint,
        moves.len() as int,
    )
}

/// Every move of `part` occurs in `whole`.
pub open spec fn drawn_from(part: Seq<Move>, whole: Seq<Move>) -> bool {
    forall|i: int| 0 <= i < part.len() ==> whole.contains(#[trigger] part[i])
}

proof fn lemma_hint_found(moves: Seq<Move>, hint: Option<Move>, n: int)
    requires
        n <= moves.len(),
    ensures
        hint_upto(moves, hint, n) ==> hint is Some && moves.contains(hint->0),
    decreases n,
{
    if n > 0 {
        lemma_hint_found(moves, hint, n - 1);
    }
}

proof fn lemma_parts_drawn(g: Seq<Piece>, moves: Seq<Move>, hint: Option<Move>, n: int)
    requires
        n <= moves.len(),
    ensures
        drawn_from(tactical_upto(g, moves, hint, n), moves),
        drawn_from(quiet_upto(g, moves, hint, n), moves),
        n > 0 ==> hint_upto(moves, hint, n) || tactical_upto(g, moves, hint, n).len()
            + quiet_upto(g, moves, hint, n).len() > 0,
    decreases n,
{
    if n > 0 {
        lemma_parts_drawn(g, moves, hint, n - 1);
        let m = moves[n - 1];
        let before = tactical_upto(g, moves, hint, n - 1);
        if hint != Some(m) && is_tactical(g, m) {
            lemma_insertion_point(g, before, m, 0);
        }
    }
}

/// The ordered moves are drawn from the given ones, and there is one to try
/// whenever there is one given.
pub proof fn lemma_ordered_drawn(g: Seq<Piece>, moves: Seq<Move>, hint: Option<Move>)
    ensures
        drawn_from(ordered(g, moves, hint), moves),
        moves.len() > 0 ==> ordered(g, moves, hint).len() > 0,
{
    reveal(ordered);
    let n = moves.len() as int;
    lemma_parts_drawn(g, moves, hint, n);
    lemma_hint_found(moves, hint, n);
}

/// The moves come by falling value.
pub open spec fn by_falling_value(g: Seq<Piece>, moves: Seq<Move>) -> bool {
    forall|i: int, j: int|
        0 <= i < j < moves.len() ==> tactical_value(g, #[trigger] moves[i]) >= tactical_value(
            g,
            #[trigger] moves[j],
        )
}

proof fn lemma_insertion_point(g: Seq<Piece>, sorted: Seq<Move>, m: Move, from: int)
    requires
        0 <= from <= sorted.len(),
    ensures
        from <= insertion_point(g, sorted, m, from) <= sorted.len(),
        forall|j: int|
            from <= j < insertion_point(g, sorted, m, from) ==> tactical_value(
                g,
                #[trigger] sorted[j],
            ) >= tactical_value(g, m),
        insertion_point(g, sorted, m, from) < sorted.len() ==> tactical_value(
            g,
            sorted[insertion_point(g, sorted, m, from)],
        ) < tactical_value(g, m),
    decreases sorted.len() - from,
{
    if from < sorted.len() && tactical_value(g, sorted[from]) >= tactical_value(g, m) {
        lemma_insertion_point(g, sorted, m, from + 1);
    }
}

proof fn lemma_inserted_sorted(g: Seq<Piece>, sorted: Seq<Move>, m: Move)
    requires
        by_falling_value(g, sorted),
    ensures
        by_falling_value(g, inserted(g, sorted, m)),
{
    lemma_insertion_point(g, sorted, m, 0);
}

/// The tactical moves are tried by falling value.
pub proof fn lemma_tactical_sorted(g: Seq<Piece>, moves: Seq<Move>, hint: Option<Move>, n: int)
    ensures
        by_falling_value(g, tactical_upto(g, moves, hint, n)),
    decreases n,
{
    if n > 0 {
        lemma_tactical_sorted(g, moves, hint, n - 1);
        if hint != Some(moves[n - 1]) && is_tactical(g, moves[n - 1]) {
            lemma_inserted_sorted(g, tactical_upto(g, moves, hint, n - 1), moves[n - 1]);
        }
    }
}

proof fn lemma_hint_kept(moves: Seq<Move>, hint: Option<Move>, n: int, i: int)
    requires
        0 <= i < n <= moves.len(),
        hint == Some(moves[i]),
    ensures
        hint_upto(moves, hint, n),
    decreases n,
{
    if i < n - 1 {
        lemma_hint_kept(moves, hint, n - 1, i);
    }
}

proof fn lemma_parts_keep(g: Seq<Piece>, moves: Seq<Move>, hint: Option<Move>, n: int, i: int)
    requires
        0 <= i < n <= moves.len(),
        hint != Some(moves[i]),
    ensures
        tactical_upto(g, moves, hint, n).contains(moves[i]) || quiet_upto(
            g,
            moves,
            hint,
            n,
        ).contains(moves[i]),
    decreases n,
{
    let m = moves[n - 1];
    let tactical = tactical_upto(g, moves, hint, n - 1);
    let quiet = quiet_upto(g, moves, hint, n - 1);
    if i < n - 1 {
        lemma_parts_keep(g, moves, hint, n - 1, i);
    }
    if hint != Some(m) && is_tactical(g, m) {
        lemma_insertion_point(g, tactical, m, 0);
        let at = insertion_point(g, tactical, m, 0);
        let after = tactical.insert(at, m);
        assert(after[at] == m);
        if i < n - 1 && tactical.contains(moves[i]) {
            let k = choose|k: int| 0 <= k < tactical.len() && tactical[k] == moves[i];
            if k < at {
                assert(after[k] == moves[i]);
            } else {
                assert(after[k + 1] == moves[i]);
            }
        }
    } else if hint != Some(m) {
        let after = quiet.push(m);
        assert(after[quiet.len() as int] == m);
        if i < n - 1 && quiet.contains(moves[i]) {
            let k = choose|k: int| 0 <= k < quiet.len() && quiet[k] == moves[i];
            assert(after[k] == moves[i]);
        }
    }
}

/// Ordering neither drops a move nor adds one: the ordered moves and the
/// given moves are the same set.
pub proof fn lemma_ordered_same_moves(g: Seq<Piece>, moves: Seq<Move>, hint: Option<Move>)
    ensures
        ordered(g, moves, hint).to_set() == moves.to_set(),
{
    reveal(ordered);
    lemma_ordered_drawn(g, moves, hint);
    let n = moves.len() as int;
    let a = hinted(moves, hint);
    let b = tactical_upto(g, moves, hint, n);
    let c = quiet_upto(g, moves, hint, n);
    let all = ordered(g, moves, hint);
    assert forall|m: Move| moves.contains(m) implies all.contains(m) by {
        let i = choose|i: int| 0 <= i < moves.len() && moves[i] == m;
        if hint == Some(m) {
            lemma_hint_kept(moves, hint, n, i);
            assert(all[0] == m);
        } else {
            lemma_parts_keep(g, moves, hint, n, i);
            if b.contains(m) {
                let k = choose|k: int| 0 <= k < b.len() && b[k] == m;
                assert(all[a.len() + k] == m);
            } else {
                let k = choose|k: int| 0 <= k < c.len() && c[k] == m;
                assert(all[a.len() + b.len() + k] == m);
            }
        }
    }
}

/// Whether two moves are the same move.
pub fn same_move(a: &Move, b: &Move) -> (same: bool)
    ensures
        same == (*a == *b),
{
    a.current_square.0 == b.current_square.0 && a.current_square.1 == b.current_square.1
        && a.destination_square.0 == b.destination_square.0 && a.destination_square.1
        == b.destination_square.1 && a.castle == b.castle && a.promotion == b.promotion
}

fn material_of_promotion(promotion: Promotion) -> (value: i64)
    ensures
        value == material(promotion_kind(promotion)),
{
    match promotion {
        Promotion::Queen => 900,
        Promotion::Rook => 500,
        Promotion::Bishop => 330,
        Promotion::Knight => 320,
        Promotion::NoPromotion => 0,
    }
}

fn material_of_victim(victim: &Piece) -> (value: i64)
    ensures
        value == (if victim.is_empty {
            0
        } else {
            material(victim.symbol)
        }),
{
    if victim.is_empty {
        return 0;
    }
    match victim.symbol {
        Symbol::Pawn => 100,
        Symbol::Knight => 320,
        Symbol::Bishop => 330,
        Symbol::Rook => 500,
        Symbol::Queen => 900,
        Symbol::King => 0,
        Symbol::Empty => 0,
    }
}

/// Puts `m`, worth `value`, into the sorted moves at its place.
fn insert_sorted(
    sorted: &mut Vec<Move>,
    values: &mut Vec<i64>,
    m: Move,
    value: i64,
    Ghost(g): Ghost<Seq<Piece>>,
)
    requires
        old(values)@.len() == old(sorted)@.len(),
        forall|k: int|
            0 <= k < old(sorted)@.len() ==> old(values)@[k] == tactical_value(
                g,
                #[trigger] old(sorted)@[k],
            ),
        value == tactical_value(g, m),
    ensures
        final(sorted)@ == inserted(g, old(sorted)@, m),
        final(values)@.len() == final(sorted)@.len(),
        forall|k: int|
            0 <= k < final(sorted)@.len() ==> final(values)@[k] == tactical_value(
                g,
                #[trigger] final(sorted)@[k],
            ),
{
    let mut at: usize = 0;
    while at < sorted.len() && values[at] >= value
        invariant
            at <= sorted@.len(),
            sorted@ == old(sorted)@,
            values@ == old(values)@,
            values@.len() == sorted@.len(),
            forall|k: int|
                0 <= k < sorted@.len() ==> values@[k] == tactical_value(g, #[trigger] sorted@[k]),
            value == tactical_value(g, m),
            insertion_point(g, sorted@, m, at as int) == insertion_point(g, sorted@, m, 0),
        decreases sorted@.len() - at,
    {
        at += 1;
    }
    sorted.insert(at, m);
    values.insert(at, value);
}

/// The moves in the order in which the search tries them: `hint` first if it
/// is among them, then the tactical moves by falling value, then the rest.
pub fn order_moves(board: &[[Piece; 8]; 8], moves: &Vec<Move>, hint: Option<Move>) -> (sorted: Vec<
    Move,
>)
    requires
        forall|i: int| 0 <= i < moves@.len() ==> move_on_board(#[trigger] moves@[i]),
    ensures
        sorted@ == ordered(grid(*board), moves@, hint),
        sorted@.to_set() == moves@.to_set(),
{
    proof {
        reveal(ordered);
        lemma_ordered_same_moves(grid(*board), moves@, hint);
    }
    let mut found = false;
    let mut tactical: Vec<Move> = Vec::new();
    let mut values: Vec<i64> = Vec::new();
    let mut quiet: Vec<Move> = Vec::new();
    let mut i: usize = 0;
    while i < moves.len()
        invariant
            i <= moves@.len(),
            forall|k: int| 0 <= k < moves@.len() ==> move_on_board(#[trigger] moves@[k]),
            found == hint_upto(moves@, hint, i as int),
            tactical@ == tactical_upto(grid(*board), moves@, hint, i as int),
            quiet@ == quiet_upto(grid(*board), moves@, hint, i as int),
            values@.len() == tactical@.len(),
            forall|k: int|
                0 <= k < tactical@.len() ==> values@[k] == tactical_value(
                    grid(*board),
                    #[trigger] tactical@[k],
                ),
        decreases moves@.len() - i,
    {
        let m = moves[i];
        let is_hint = match hint {
            Some(h) => same_move(&h, &m),
            None => false,
        };
        if is_hint {
            found = true;
        } else {
            let victim = piece_at(board, m.destination_square.0, m.destination_square.1);
            let promotes = match m.promotion {
                Promotion::NoPromotion => false,
                _ => true,
            };
            if !victim.is_empty || promotes || m.castle {
                let value = material_of_victim(&victim) + material_of_promotion(m.promotion);
                insert_sorted(&mut tactical, &mut values, m, value, Ghost(grid(*board)));
            } else {
                quiet.push(m);
            }
        }
        i += 1;
    }
    let mut sorted: Vec<Move> = Vec::new();
    proof {
        lemma_hint_found(moves@, hint, moves@.len() as int);
    }
    if found {
        match hint {
            Some(h) => { sorted.push(h); },
            None => {},
        }
    }
    sorted.append(&mut tactical);
    sorted.append(&mut quiet);
    sorted
}

} // verus!
