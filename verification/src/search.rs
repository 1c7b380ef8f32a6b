//! The search: negamax with a principal-variation window, a transposition
//! table and iterative deepening.
//!
//! The table makes the result of a search depend on what earlier searches
//! left in it, so the contracts are stated over [`searched`], which says
//! what a search returns, what it leaves in the table and how many nodes it
//! visits, for any table it starts with.

use crate::attack::{has_king, in_check, is_king_in_check};
use crate::evaluation::{evaluate, evaluation};
use crate::legality::{lemma_legal_moves_sound, lemma_move_keeps_has_king, sound_move};
use crate::ordering::{lemma_ordered_drawn, order_moves, ordered};
use crate::pieces_logic::{make_move, Move, Piece};
use crate::position::{after_move, grid};
use crate::rules::{get_all_legal_moves_for_this_turn, legal_moves};
use crate::transposition::{
    Bound, cutoff_value, probed, stored, TranspositionTable, tt_cutoff, TTEntry, VALUE_LIMIT,
};
use crate::zobrist::{zobrist, zobrist_after, zobrist_after_move, zobrist_hash};
use vstd::prelude::*;

verus! {

/// The score of being mated with no move left to search.
pub const MATE_SCORE: i64 = 1_000_000;

/// A bound that no score reaches; the widest window is `(-INFINITY, INFINITY)`.
pub const INFINITY: i64 = 2_000_000;

/// The static evaluation seen from the side to move.
#[verifier::opaque]
pub open spec fn leaf_score(g: Seq<Piece>, side: bool) -> int {
    if side {
        evaluation(g)
    } else {
        -evaluation(g)
    }
}

/// The score of a side without a legal move: mated if in check, and the worse
/// the more depth is left, so that the mating side prefers the shorter mate;
/// a draw if not in check.
#[verifier::opaque]
pub open spec fn stuck_score(g: Seq<Piece>, side: bool, depth: u8) -> int {
    if in_check(g, side) {
        -(MATE_SCORE + depth)
    } else {
        0
    }
}

/// What a score found with the window `(alpha, beta)` says of the true score.
pub open spec fn bound_of(best: int, alpha: int, beta: int) -> Bound {
    if best <= alpha {
        Bound::Upper
    } else if best >= beta {
        Bound::Lower
    } else {
        Bound::Exact
    }
}

/// The move that is tried first: the one handed in, else the one that the
/// table remembers for the position.
pub open spec fn remembered(slots: Seq<TTEntry>, hash: u64, first: Option<Move>) -> Option<Move> {
    if first is Some {
        first
    } else {
        match probed(slots, hash) {
            Some(entry) => Some(entry.best_move),
            None => None,
        }
    }
}

/// The value that the table lets the search return at once. The root of a
/// search never returns at once, since it has to name a move.
pub open spec fn early_value(
    slots: Seq<TTEntry>,
    hash: u64,
    depth: u8,
    alpha: int,
    beta: int,
    at_root: bool,
) -> Option<int> {
    if at_root {
        None
    } else {
        match probed(slots, hash) {
            Some(entry) => cutoff_value(entry, depth, alpha, beta),
            None => None,
        }
    }
}

/// A node counter after `visited` more nodes; it stops at the largest value.
pub open spec fn counted(before: u64, visited: nat) -> u64 {
    if before + visited > u64::MAX {
        u64::MAX
    } else {
        (before + visited) as u64
    }
}

/// The search of one position: the score, the best move where moves were
/// searched, the table afterwards, and the number of nodes visited.
///
/// A value from the table ends the search at once. At depth 0 the score is the
/// static evaluation; without a legal move it is that of mate or stalemate.
/// Otherwise the moves are searched in order and the result is stored.
pub open spec fn searched(
    g: Seq<Piece>,
    depth: u8,
    alpha: int,
    beta: int,
    side: bool,
    hash: u64,
    slots: Seq<TTEntry>,
    at_root: bool,
    first: Option<Move>,
) -> (int, Option<Move>, Seq<TTEntry>, nat)
    decreases depth, 2int, 0int,
{
    match early_value(slots, hash, depth, alpha, beta, at_root) {
        Some(value) => (value, None, slots, 1),
        None => {
            if depth == 0 {
                (leaf_score(g, side), None, slots, 1)
            } else if legal_moves(g, side).len() == 0 {
                (stuck_score(g, side, depth), None, slots, 1)
            } else {
                let order = ordered(g, legal_moves(g, side), remembered(slots, hash, first));
                let scan = scanned(
                    g,
                    order,
                    0,
                    depth,
                    alpha,
                    beta,
                    side,
                    hash,
                    slots,
                    -INFINITY as int,
                    order[0],
                );
                (
                    scan.0,
                    Some(scan.1),
                    stored(scan.2, node_entry(hash, depth, scan.0, alpha, beta, scan.1)),
                    scan.3 + 1,
                )
            }
        },
    }
}

/// The entry that a search stores for its position.
pub open spec fn node_entry(
    hash: u64,
    depth: u8,
    best: int,
    alpha: int,
    beta: int,
    best_move: Move,
) -> TTEntry {
    TTEntry {
        key: hash,
        depth,
        value: best as i64,
        bound: bound_of(best, alpha, beta),
        best_move,
        valid: true,
    }
}

/// The search of move `m` of a position: its score for the side that makes
/// it, the table afterwards, and the number of nodes visited.
///
/// The first move of a position is searched with the full window. Each later
/// move is searched with an empty window above `alpha`, and once more with
/// the full window if its score falls strictly inside `(alpha, beta)`.
pub open spec fn tried(
    g: Seq<Piece>,
    m: Move,
    is_first: bool,
    depth: u8,
    alpha: int,
    beta: int,
    side: bool,
    hash: u64,
    slots: Seq<TTEntry>,
) -> (int, Seq<TTEntry>, nat)
    decreases depth, 0int, 0int,
{
    if depth == 0 {
        (0, slots, 0)
    } else {
        let child = after_move(g, m);
        let child_hash = zobrist_after(hash, g, m);
        let below = (depth - 1) as u8;
        if is_first {
            let full = searched(child, below, -beta, -alpha, !side, child_hash, slots, false, None);
            (-full.0, full.2, full.3)
        } else {
            let narrow = searched(
                child,
                below,
                -alpha - 1,
                -alpha,
                !side,
                child_hash,
                slots,
                false,
                None,
            );
            if alpha < -narrow.0 < beta {
                let full = searched(
                    child,
                    below,
                    -beta,
                    -alpha,
                    !side,
                    child_hash,
                    narrow.2,
                    false,
                    None,
                );
                (-full.0, full.2, narrow.3 + full.3)
            } else {
                (-narrow.0, narrow.2, narrow.3)
            }
        }
    }
}

/// The search of the moves `moves[i..]` of a position, with `best` and
/// `best_move` the best score and move so far: the best score and move in the
/// end, the table afterwards, and the number of nodes visited. A score that
/// raises `alpha` to `beta` or beyond ends the scan.
pub open spec fn scanned(
    g: Seq<Piece>,
    moves: Seq<Move>,
    i: int,
    depth: u8,
    alpha: int,
    beta: int,
    side: bool,
    hash: u64,
    slots: Seq<TTEntry>,
    best: int,
    best_move: Move,
) -> (int, Move, Seq<TTEntry>, nat)
    decreases depth, 1int, moves.len() - i,
{
    if i < 0 || i >= moves.len() {
        (best, best_move, slots, 0)
    } else {
        let one = tried(g, moves[i], i == 0, depth, alpha, beta, side, hash, slots);
        let new_best = if one.0 > best {
            one.0
        } else {
            best
        };
        let new_move = if one.0 > best {
            moves[i]
        } else {
            best_move
        };
        let new_alpha = if one.0 > alpha {
            one.0
        } else {
            alpha
        };
        if new_alpha >= beta {
            (new_best, new_move, one.1, one.2)
        } else {
            let rest = scanned(
                g,
                moves,
                i + 1,
                depth,
                new_alpha,
                beta,
                side,
                hash,
                one.1,
                new_best,
                new_move,
            );
            (rest.0, rest.1, rest.2, rest.3 + one.2)
        }
    }
}

/// Iterative deepening through the depths 1 to `depth`: the best move of the
/// last search, the table afterwards, and the number of nodes visited. Each
/// search starts with the best move of the one before.
pub open spec fn deepened(g: Seq<Piece>, side: bool, hash: u64, slots: Seq<TTEntry>, depth: u8) -> (
    Option<Move>,
    Seq<TTEntry>,
    nat,
)
    decreases depth,
{
    if depth == 0 {
        (None, slots, 0)
    } else {
        let before = deepened(g, side, hash, slots, (depth - 1) as u8);
        let round = searched(
            g,
            depth,
            -INFINITY as int,
            INFINITY as int,
            side,
            hash,
            before.1,
            true,
            before.0,
        );
        (round.1, round.2, before.2 + round.3)
    }
}

/// Searches move `m` of the position; see [`tried`].
fn try_move(
    board: &[[Piece; 8]; 8],
    m: &Move,
    is_first: bool,
    depth: u8,
    alpha: i64,
    beta: i64,
    side: bool,
    hash: u64,
    table: &mut TranspositionTable,
    nodes: &mut u64,
) -> (score: i64)
    requires
        depth > 0,
        old(table).well_formed(),
        has_king(grid(*board), true),
        has_king(grid(*board), false),
        sound_move(grid(*board), side, *m),
        -INFINITY <= alpha <= INFINITY,
        -INFINITY <= beta <= INFINITY,
        is_first || alpha < beta,
    ensures
        final(table).well_formed(),
        final(table)@.len() == old(table)@.len(),
        -VALUE_LIMIT <= score <= VALUE_LIMIT,
        score == tried(
            grid(*board),
            *m,
            is_first,
            depth,
            alpha as int,
            beta as int,
            side,
            hash,
            old(table)@,
        ).0,
        final(table)@ == tried(
            grid(*board),
            *m,
            is_first,
            depth,
            alpha as int,
            beta as int,
            side,
            hash,
            old(table)@,
        ).1,
        *final(nodes) == counted(
            *old(nodes),
            tried(
                grid(*board),
                *m,
                is_first,
                depth,
                alpha as int,
                beta as int,
                side,
                hash,
                old(table)@,
            ).2,
        ),
    decreases depth, 0int,
{
    proof {
        lemma_move_keeps_has_king(grid(*board), side, *m, true);
        lemma_move_keeps_has_king(grid(*board), side, *m, false);
    }
    let mut child = *board;
    make_move(&mut child, m);
    let child_hash = zobrist_after_move(hash, board, m);
    if is_first {
        let full = search_node(
            &child,
            depth - 1,
            -beta,
            -alpha,
            !side,
            child_hash,
            table,
            nodes,
            false,
            None,
        );
        -full.0
    } else {
        let narrow = search_node(
            &child,
            depth - 1,
            -alpha - 1,
            -alpha,
            !side,
            child_hash,
            table,
            nodes,
            false,
            None,
        );
        if alpha < -narrow.0 && -narrow.0 < beta {
            let full = search_node(
                &child,
                depth - 1,
                -beta,
                -alpha,
                !side,
                child_hash,
                table,
                nodes,
                false,
                None,
            );
            -full.0
        } else {
            -narrow.0
        }
    }
}

/// Searches the moves of `order` in turn; see [`scanned`].
fn scan_moves(
    board: &[[Piece; 8]; 8],
    order: &Vec<Move>,
    depth: u8,
    alpha: i64,
    beta: i64,
    side: bool,
    hash: u64,
    table: &mut TranspositionTable,
    nodes: &mut u64,
) -> (result: (i64, Move))
    requires
        depth > 0,
        order@.len() > 0,
        old(table).well_formed(),
        has_king(grid(*board), true),
        has_king(grid(*board), false),
        forall|k: int|
            0 <= k < order@.len() ==> sound_move(grid(*board), side, #[trigger] order@[k]),
        -INFINITY <= alpha <= INFINITY,
        -INFINITY <= beta <= INFINITY,
    ensures
        final(table).well_formed(),
        final(table)@.len() == old(table)@.len(),
        -VALUE_LIMIT <= result.0 <= VALUE_LIMIT,
        order@.contains(result.1),
        (result.0 as int, result.1, final(table)@) == ({
            let scan = scanned(
                grid(*board),
                order@,
                0,
                depth,
                alpha as int,
                beta as int,
                side,
                hash,
                old(table)@,
                -INFINITY as int,
                order@[0],
            );
            (scan.0, scan.1, scan.2)
        }),
        *final(nodes) == counted(
            *old(nodes),
            scanned(
                grid(*board),
                order@,
                0,
                depth,
                alpha as int,
                beta as int,
                side,
                hash,
                old(table)@,
                -INFINITY as int,
                order@[0],
            ).3,
        ),
    decreases depth, 1int,
{
    let ghost g = grid(*board);
    let ghost slots0 = table@;
    let ghost nodes0 = *nodes;
    let ghost target = scanned(
        g,
        order@,
        0,
        depth,
        alpha as int,
        beta as int,
        side,
        hash,
        slots0,
        -INFINITY as int,
        order@[0],
    );
    let mut alpha_now: i64 = alpha;
    let mut best: i64 = -INFINITY;
    let mut best_m: Move = order[0];
    let mut cut = false;
    let mut i: usize = 0;
    let ghost mut visited: nat = 0;
    while i < order.len() && !cut
        invariant
            depth > 0,
            g == grid(*board),
            i <= order@.len(),
            order@.len() > 0,
            has_king(g, true),
            has_king(g, false),
            forall|k: int| 0 <= k < order@.len() ==> sound_move(g, side, #[trigger] order@[k]),
            order@.contains(best_m),
            table.well_formed(),
            table@.len() == slots0.len(),
            alpha <= alpha_now <= INFINITY,
            -INFINITY <= alpha <= INFINITY,
            -INFINITY <= beta <= INFINITY,
            i > 0 ==> -VALUE_LIMIT <= best <= VALUE_LIMIT,
            i == 0 ==> best == -INFINITY && !cut,
            *nodes == counted(nodes0, visited),
            cut ==> target == (best as int, best_m, table@, visited),
            !cut ==> alpha_now < beta || i == 0,
            !cut ==> ({
                let rest = scanned(
                    g,
                    order@,
                    i as int,
                    depth,
                    alpha_now as int,
                    beta as int,
                    side,
                    hash,
                    table@,
                    best as int,
                    best_m,
                );
                &&& target.0 == rest.0
                &&& target.1 == rest.1
                &&& target.2 == rest.2
                &&& target.3 == rest.3 + visited
            }),
        decreases order@.len() - i,
    {
        let m = order[i];
        let ghost slots_before = table@;
        let ghost one = tried(
            g,
            m,
            i == 0,
            depth,
            alpha_now as int,
            beta as int,
            side,
            hash,
            slots_before,
        );
        let score = try_move(board, &m, i == 0, depth, alpha_now, beta, side, hash, table, nodes);
        if score > best {
            best = score;
            best_m = m;
        }
        if score > alpha_now {
            alpha_now = score;
        }
        if alpha_now >= beta {
            cut = true;
        }
        proof {
            visited = visited + one.2;
        }
        i += 1;
    }
    (best, best_m)
}

/// Searches one position; see [`searched`].
fn search_node(
    board: &[[Piece; 8]; 8],
    depth: u8,
    alpha: i64,
    beta: i64,
    side: bool,
    hash: u64,
    table: &mut TranspositionTable,
    nodes: &mut u64,
    at_root: bool,
    first: Option<Move>,
) -> (result: (i64, Option<Move>))
    requires
        old(table).well_formed(),
        has_king(grid(*board), true),
        has_king(grid(*board), false),
        -INFINITY <= alpha <= INFINITY,
        -INFINITY <= beta <= INFINITY,
    ensures
        final(table).well_formed(),
        final(table)@.len() == old(table)@.len(),
        -VALUE_LIMIT <= result.0 <= VALUE_LIMIT,
        (result.0 as int, result.1, final(table)@) == ({
            let outcome = searched(
                grid(*board),
                depth,
                alpha as int,
                beta as int,
                side,
                hash,
                old(table)@,
                at_root,
                first,
            );
            (outcome.0, outcome.1, outcome.2)
        }),
        *final(nodes) == counted(
            *old(nodes),
            searched(
                grid(*board),
                depth,
                alpha as int,
                beta as int,
                side,
                hash,
                old(table)@,
                at_root,
                first,
            ).3,
        ),
        result.1 matches Some(m) ==> legal_moves(grid(*board), side).contains(m),
        result.1 is Some <==> depth > 0 && legal_moves(grid(*board), side).len() > 0 && early_value(
            old(table)@,
            hash,
            depth,
            alpha as int,
            beta as int,
            at_root,
        ) is None,
    decreases depth, 2int,
{
    proof {
        reveal(leaf_score);
        reveal(stuck_score);
    }
    let ghost g = grid(*board);
    *nodes = nodes.saturating_add(1);
    let probe = table.probe(hash);
    if !at_root {
        if let Some(entry) = probe {
            if let Some(value) = tt_cutoff(&entry, depth, alpha, beta) {
                return (value, None);
            }
        }
    }
    if depth == 0 {
        let score = evaluate(board);
        return (if side { score } else { -score }, None);
    }
    let moves = get_all_legal_moves_for_this_turn(board, side);
    if moves.len() == 0 {
        if is_king_in_check(board, side) {
            return (-(MATE_SCORE + depth as i64), None);
        } else {
            return (0, None);
        }
    }
    let hint: Option<Move> = match first {
        Some(m) => Some(m),
        None => match probe {
            Some(entry) => Some(entry.best_move),
            None => None,
        },
    };
    proof {
        lemma_legal_moves_sound(g, side);
        lemma_ordered_drawn(g, moves@, hint);
    }
    let order = order_moves(board, &moves, hint);
    let (best, best_m) = scan_moves(board, &order, depth, alpha, beta, side, hash, table, nodes);
    let bound = if best <= alpha {
        Bound::Upper
    } else if best >= beta {
        Bound::Lower
    } else {
        Bound::Exact
    };
    table.store(
        TTEntry { key: hash, depth, value: best, bound, best_move: best_m, valid: true },
    );
    (best, Some(best_m))
}

/// Searches the position to the given depth with the window `(alpha, beta)`
/// and returns its score from the point of view of `side`. `hash` is the key
/// under which the position is looked up and stored in the table; `nodes`
/// counts the positions visited.
pub fn negamax(
    board: &[[Piece; 8]; 8],
    depth: u8,
    alpha: i64,
    beta: i64,
    side: bool,
    hash: u64,
    table: &mut TranspositionTable,
    nodes: &mut u64,
) -> (score: i64)
    requires
        old(table).well_formed(),
        has_king(grid(*board), true),
        has_king(grid(*board), false),
        -INFINITY <= alpha <= INFINITY,
        -INFINITY <= beta <= INFINITY,
    ensures
        final(table).well_formed(),
        -VALUE_LIMIT <= score <= VALUE_LIMIT,
        score == searched(
            grid(*board),
            depth,
            alpha as int,
            beta as int,
            side,
            hash,
            old(table)@,
            false,
            None,
        ).0,
        final(table)@ == searched(
            grid(*board),
            depth,
            alpha as int,
            beta as int,
            side,
            hash,
            old(table)@,
            false,
            None,
        ).2,
        *final(nodes) == counted(
            *old(nodes),
            searched(
                grid(*board),
                depth,
                alpha as int,
                beta as int,
                side,
                hash,
                old(table)@,
                false,
                None,
            ).3,
        ),
{
    search_node(board, depth, alpha, beta, side, hash, table, nodes, false, None).0
}

/// The move that iterative deepening to `max_depth` finds best for `side`:
/// none if `max_depth` is 0 or the side has no legal move. The node counter
/// starts from zero; the table is used and filled as it stands.
pub fn best_move(
    board: &[[Piece; 8]; 8],
    max_depth: u8,
    side: bool,
    table: &mut TranspositionTable,
    nodes: &mut u64,
) -> (best: Option<Move>)
    requires
        old(table).well_formed(),
        has_king(grid(*board), true),
        has_king(grid(*board), false),
    ensures
        final(table).well_formed(),
        best == deepened(
            grid(*board),
            side,
            zobrist(grid(*board), side),
            old(table)@,
            max_depth,
        ).0,
        final(table)@ == deepened(
            grid(*board),
            side,
            zobrist(grid(*board), side),
            old(table)@,
            max_depth,
        ).1,
        *final(nodes) == counted(
            0,
            deepened(grid(*board), side, zobrist(grid(*board), side), old(table)@, max_depth).2,
        ),
        best matches Some(m) ==> legal_moves(grid(*board), side).contains(m),
        best is Some <==> max_depth > 0 && legal_moves(grid(*board), side).len() > 0,
{
    let ghost g = grid(*board);
    let ghost slots0 = table@;
    *nodes = 0;
    let hash = zobrist_hash(board, side);
    let mut best: Option<Move> = None;
    let mut depth: u8 = 0;
    let ghost mut visited: nat = 0;
    while depth < max_depth
        invariant
            depth <= max_depth,
            g == grid(*board),
            hash == zobrist(g, side),
            has_king(g, true),
            has_king(g, false),
            table.well_formed(),
            *nodes == counted(0, visited),
            best matches Some(m) ==> legal_moves(g, side).contains(m),
            best is Some <==> depth > 0 && legal_moves(g, side).len() > 0,
            (best, table@, visited) == deepened(g, side, hash, slots0, depth),
        decreases max_depth - depth,
    {
        depth += 1;
        let ghost slots_before = table@;
        let ghost round = searched(
            g,
            depth,
            -INFINITY as int,
            INFINITY as int,
            side,
            hash,
            slots_before,
            true,
            best,
        );
        let found = search_node(
            board,
            depth,
            -INFINITY,
            INFINITY,
            side,
            hash,
            table,
            nodes,
            true,
            best,
        );
        proof {
            visited = visited + round.3;
        }
        best = found.1;
    }
    best
}

} // verus!
