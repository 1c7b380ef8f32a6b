//! Zobrist hashing: a 64-bit fingerprint of a position and the side to move.
//!
//! Each pair of a square and a piece identity has a key, taken from a fixed
//! pseudorandom stream. The hash of a position is the XOR of the keys of its
//! occupied squares, and of one more key when Black is to move. After a move
//! the hash is updated from the few squares that the move touches.

use crate::legality::{lemma_legal_moves_sound, move_shape};
use crate::pieces_logic::{Move, Piece, piece_at, Promotion, Symbol};
use crate::position::{
    after_move, applicable, carried, castled, cell, empty_piece, grid, promoted_piece,
    promotion_kind, rook_home_col, rook_landing_col,
};
use crate::rules::legal_moves;
use vstd::prelude::*;

verus! {

/// Seed of the key stream.
pub const KEY_SEED: u64 = 0x2545_F491_4F6C_DD1D;

/// Increment of the key stream's state.
pub const KEY_GAMMA: u64 = 0x9E37_79B9_7F4A_7C15;

/// Index in the key stream of the key for "Black is to move".
pub const SIDE_KEY_INDEX: u64 = 1536;

/// The `n`-th value of the key stream: the state advanced `n + 1` times from
/// the seed, then scrambled by two multiply-and-shift rounds.
#[verifier::opaque]
pub open spec fn stream_key(n: u64) -> u64 {
    let z0 = KEY_SEED.wrapping_add(n.wrapping_add(1).wrapping_mul(KEY_GAMMA));
    let z1 = (z0 ^ (z0 >> 30)).wrapping_mul(0xBF58_476D_1CE4_E5B9);
    let z2 = (z1 ^ (z1 >> 27)).wrapping_mul(0x94D0_49BB_1331_11EB);
    z2 ^ (z2 >> 31)
}

/// Position of a kind among the six kinds of piece.
pub open spec fn kind_index(kind: Symbol) -> int {
    match kind {
        Symbol::Pawn => 0,
        Symbol::Knight => 1,
        Symbol::Bishop => 2,
        Symbol::Rook => 3,
        Symbol::Queen => 4,
        Symbol::King => 5,
        Symbol::Empty => 0,
    }
}

/// The cell holds a piece that has a key.
pub open spec fn has_identity(p: Piece) -> bool {
    !p.is_empty && p.symbol != Symbol::Empty
}

/// One of 24 identities: the kind, the colour, and whether the piece has moved.
pub open spec fn identity(p: Piece) -> int {
    4 * kind_index(p.symbol) + (if p.color {
        2int
    } else {
        0int
    }) + (if p.has_moved {
        1int
    } else {
        0int
    })
}

/// The key of piece `p` on the square with row-major index `square`; zero for an empty cell.
pub open spec fn piece_key(square: int, p: Piece) -> u64 {
    if has_identity(p) {
        stream_key((24 * square + identity(p)) as u64)
    } else {
        0
    }
}

/// The XOR of the keys of the first `n` cells.
pub open spec fn hash_upto(g: Seq<Piece>, n: int) -> u64
    decreases n,
{
    if n <= 0 {
        0
    } else {
        hash_upto(g, n - 1) ^ piece_key(n - 1, g[n - 1])
    }
}

/// The hash of position `g` with `side` to move.
pub open spec fn zobrist(g: Seq<Piece>, side: bool) -> u64 {
    if side {
        hash_upto(g, 64)
    } else {
        hash_upto(g, 64) ^ stream_key(SIDE_KEY_INDEX)
    }
}

/// The piece that stands on the destination once `m` has been made: the mover,
/// or what it is promoted to.
pub open spec fn arrival(g: Seq<Piece>, m: Move) -> Piece {
    let (fr, fc) = (m.current_square.0 as int, m.current_square.1 as int);
    let (tr, tc) = (m.destination_square.0 as int, m.destination_square.1 as int);
    if m.promotion == Promotion::NoPromotion {
        carried(cell(g, fr, fc), tr, tc)
    } else {
        promoted_piece(promotion_kind(m.promotion), cell(g, fr, fc).color, tr, tc)
    }
}

/// What castling adds to the update: the rook leaves its corner and lands beside the king.
pub open spec fn rook_delta(g: Seq<Piece>, m: Move) -> u64 {
    let row = m.current_square.0 as int;
    if m.castle {
        piece_key(8 * row + rook_home_col(m), cell(g, row, rook_home_col(m))) ^ piece_key(
            8 * row + rook_landing_col(m),
            carried(cell(g, row, rook_home_col(m)), row, rook_landing_col(m)),
        )
    } else {
        0
    }
}

/// The hash `hash` updated for move `m` made on `g`: the mover leaves its
/// square, what stood on the destination leaves, the mover arrives, the rook
/// of a castle move goes over, and the side to move changes.
#[verifier::opaque]
pub open spec fn zobrist_after(hash: u64, g: Seq<Piece>, m: Move) -> u64 {
    let (fr, fc) = (m.current_square.0 as int, m.current_square.1 as int);
    let (tr, tc) = (m.destination_square.0 as int, m.destination_square.1 as int);
    hash ^ piece_key(8 * fr + fc, cell(g, fr, fc)) ^ piece_key(8 * tr + tc, cell(g, tr, tc))
        ^ piece_key(8 * tr + tc, arrival(g, m)) ^ rook_delta(g, m) ^ stream_key(SIDE_KEY_INDEX)
}

/// The `n`-th key of the stream.
pub fn zobrist_key(n: u64) -> (key: u64)
    ensures
        key == stream_key(n),
{
    proof {
        reveal(stream_key);
    }
    let z0 = KEY_SEED.wrapping_add(n.wrapping_add(1).wrapping_mul(KEY_GAMMA));
    let z1 = (z0 ^ (z0 >> 30)).wrapping_mul(0xBF58_476D_1CE4_E5B9);
    let z2 = (z1 ^ (z1 >> 27)).wrapping_mul(0x94D0_49BB_1331_11EB);
    z2 ^ (z2 >> 31)
}

/// The key of `piece` on the square with row-major index `square`.
pub fn zobrist_piece_key(square: u8, piece: &Piece) -> (key: u64)
    requires
        square < 64,
    ensures
        key == piece_key(square as int, *piece),
{
    if piece.is_empty {
        return 0;
    }
    let kind: u64 = match piece.symbol {
        Symbol::Pawn => 0,
        Symbol::Knight => 1,
        Symbol::Bishop => 2,
        Symbol::Rook => 3,
        Symbol::Queen => 4,
        Symbol::King => 5,
        Symbol::Empty => { return 0; },
    };
    let color: u64 = if piece.color { 2 } else { 0 };
    let moved: u64 = if piece.has_moved { 1 } else { 0 };
    zobrist_key(24 * (square as u64) + 4 * kind + color + moved)
}

/// The hash of the position with `side` to move, computed from all 64 cells.
pub fn zobrist_hash(board: &[[Piece; 8]; 8], side: bool) -> (hash: u64)
    ensures
        hash == zobrist(grid(*board), side),
{
    let mut hash: u64 = 0;
    let mut i: u8 = 0;
    while i < 64
        invariant
            i <= 64,
            hash == hash_upto(grid(*board), i as int),
        decreases 64 - i,
    {
        let piece = piece_at(board, i / 8, i % 8);
        hash = hash ^ zobrist_piece_key(i, &piece);
        i += 1;
    }
    if side {
        hash
    } else {
        hash ^ zobrist_key(SIDE_KEY_INDEX)
    }
}

/// The hash after `move_` is made, from the hash before it and the board before it.
pub fn zobrist_after_move(hash: u64, board: &[[Piece; 8]; 8], move_: &Move) -> (updated: u64)
    requires
        applicable(*move_),
    ensures
        updated == zobrist_after(hash, grid(*board), *move_),
{
    proof {
        reveal(zobrist_after);
    }
    let from = move_.current_square;
    let to = move_.destination_square;
    let mover = piece_at(board, from.0, from.1);
    let captured = piece_at(board, to.0, to.1);
    let arriving = match move_.promotion {
        Promotion::Queen => promoted_to(Symbol::Queen, 900, mover.color, to),
        Promotion::Rook => promoted_to(Symbol::Rook, 500, mover.color, to),
        Promotion::Bishop => promoted_to(Symbol::Bishop, 330, mover.color, to),
        Promotion::Knight => promoted_to(Symbol::Knight, 320, mover.color, to),
        Promotion::NoPromotion => carry(mover, to),
    };
    let mut rook: u64 = 0;
    if move_.castle {
        let kingside = to.1 > from.1;
        let corner: u8 = if kingside { 7 } else { 0 };
        let landing: u8 = if kingside { from.1 + 1 } else { from.1 - 1 };
        let piece = piece_at(board, from.0, corner);
        rook = zobrist_piece_key(8 * from.0 + corner, &piece) ^ zobrist_piece_key(
            8 * from.0 + landing,
            &carry(piece, (from.0, landing)),
        );
    }
    hash ^ zobrist_piece_key(8 * from.0 + from.1, &mover) ^ zobrist_piece_key(
        8 * to.0 + to.1,
        &captured,
    ) ^ zobrist_piece_key(8 * to.0 + to.1, &arriving) ^ rook ^ zobrist_key(SIDE_KEY_INDEX)
}

fn carry(piece: Piece, to: (u8, u8)) -> (moved: Piece)
    ensures
        moved == carried(piece, to.0 as int, to.1 as int),
{
    Piece {
        color: piece.color,
        symbol: piece.symbol,
        has_moved: true,
        value: piece.value,
        is_empty: piece.is_empty,
        current_square: to,
    }
}

fn promoted_to(kind: Symbol, value: i64, color: bool, to: (u8, u8)) -> (piece: Piece)
    requires
        value == crate::position::piece_value(kind),
    ensures
        piece == promoted_piece(kind, color, to.0 as int, to.1 as int),
{
    Piece { color, symbol: kind, has_moved: true, value, is_empty: false, current_square: to }
}

proof fn lemma_hash_update(g: Seq<Piece>, i: int, p: Piece, n: int)
    requires
        0 <= i < g.len(),
        0 <= n <= g.len(),
    ensures
        hash_upto(g.update(i, p), n) == (if i < n {
            hash_upto(g, n) ^ (piece_key(i, g[i]) ^ piece_key(i, p))
        } else {
            hash_upto(g, n)
        }),
    decreases n,
{
    if n > 0 {
        lemma_hash_update(g, i, p, n - 1);
        let a = hash_upto(g, n - 1);
        let k = piece_key(n - 1, g[n - 1]);
        let kp = piece_key(i, p);
        let d = piece_key(i, g[i]) ^ piece_key(i, p);
        if i == n - 1 {
            assert(a ^ kp == (a ^ k) ^ (k ^ kp)) by (bit_vector);
        } else if i < n - 1 {
            assert((a ^ d) ^ k == (a ^ k) ^ d) by (bit_vector);
        }
    }
}

/// For a move of the shape of a legal move, updating the hash gives the hash
/// of the position after the move with the other side to move.
pub proof fn lemma_update_matches_recompute(g: Seq<Piece>, side: bool, m: Move)
    requires
        g.len() == 64,
        move_shape(g, side, m),
    ensures
        zobrist_after(zobrist(g, side), g, m) == zobrist(after_move(g, m), !side),
{
    reveal(after_move);
    reveal(zobrist_after);
    let (fr, fc) = (m.current_square.0 as int, m.current_square.1 as int);
    let (tr, tc) = (m.destination_square.0 as int, m.destination_square.1 as int);
    let from = 8 * fr + fc;
    let to = 8 * tr + tc;
    let mover = cell(g, fr, fc);
    let h0 = hash_upto(g, 64);
    let k_from = piece_key(from, mover);
    let k_to = piece_key(to, g[to]);
    let k_car = piece_key(to, carried(mover, tr, tc));
    let k_arr = piece_key(to, arrival(g, m));
    let sk = stream_key(SIDE_KEY_INDEX);

    // The mover arrives on the destination, then its square is cleared.
    let g1 = g.update(to, carried(mover, tr, tc));
    let g2 = g1.update(from, empty_piece(fr, fc));
    lemma_hash_update(g, to, carried(mover, tr, tc), 64);
    lemma_hash_update(g1, from, empty_piece(fr, fc), 64);
    let h1 = hash_upto(g1, 64);
    let h2 = hash_upto(g2, 64);

    // The rook of a castle move lands on an empty square and leaves its corner.
    let g4 = castled(g2, m);
    let h4 = hash_upto(g4, 64);
    let rd = rook_delta(g, m);
    if m.castle {
        let land = 8 * fr + rook_landing_col(m);
        let home = 8 * fr + rook_home_col(m);
        let rook = cell(g2, fr, rook_home_col(m));
        let g3 = g2.update(land, carried(rook, fr, rook_landing_col(m)));
        lemma_hash_update(g2, land, carried(rook, fr, rook_landing_col(m)), 64);
        lemma_hash_update(g3, home, empty_piece(fr, rook_home_col(m)), 64);
        let h3 = hash_upto(g3, 64);
        let k_home = piece_key(home, g[home]);
        let k_land = piece_key(land, carried(rook, fr, rook_landing_col(m)));
        assert(h4 == h2 ^ rd) by (bit_vector)
            requires
                h3 == h2 ^ (0 ^ k_land),
                h4 == h3 ^ (k_home ^ 0),
                rd == k_home ^ k_land,
        ;
    } else {
        assert(h4 == h2 ^ rd) by (bit_vector)
            requires
                h4 == h2,
                rd == 0,
        ;
    }
    // A promotion replaces the mover where it arrived.
    let g5 = after_move(g, m);
    let h5 = hash_upto(g5, 64);
    if m.promotion != Promotion::NoPromotion {
        lemma_hash_update(g4, to, arrival(g, m), 64);
    }
    assert(h5 == h0 ^ k_from ^ k_to ^ k_arr ^ rd) by (bit_vector)
        requires
            h1 == h0 ^ (k_to ^ k_car),
            h2 == h1 ^ (k_from ^ 0),
            h4 == h2 ^ rd,
            (h5 == h4 ^ (k_car ^ k_arr)) || (h5 == h4 && k_arr == k_car),
    ;
    if !side {
        assert(((h0 ^ sk) ^ k_from ^ k_to ^ k_arr ^ rd ^ sk) == h0 ^ k_from ^ k_to ^ k_arr ^ rd)
            by (bit_vector);
    }
}

/// The hash kept up to date move by move equals the hash computed afresh:
/// after any legal move, updating the hash of the position before the move
/// gives the hash of the position after it, with the other side to move.
pub proof fn law_updated_hash_equals_recomputed(g: Seq<Piece>, side: bool, m: Move)
    requires
        g.len() == 64,
        legal_moves(g, side).contains(m),
    ensures
        zobrist_after(zobrist(g, side), g, m) == zobrist(after_move(g, m), !side),
{
    lemma_legal_moves_sound(g, side);
    lemma_update_matches_recompute(g, side, m);
}

} // verus!
