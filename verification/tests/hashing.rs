use chess_engine::chess_board::{create_empty_board, initialize_chess_board};
use chess_engine::pieces_logic::{
    get_all_legal_moves_for_this_turn, make_move, place_king_on_board, place_knight_on_board,
    place_pawn_on_board, place_rook_on_board, Move, Piece, Promotion, Symbol,
};
use chess_engine::zobrist::{zobrist_after_move, zobrist_hash, zobrist_key, zobrist_piece_key};

fn step(from: (u8, u8), to: (u8, u8)) -> Move {
    Move { current_square: from, destination_square: to, castle: false, promotion: Promotion::NoPromotion }
}

#[test]
fn keys_of_the_stream() {
    assert_eq!(zobrist_key(0), 0xc0e16b163a85a4dc);
    assert_eq!(zobrist_key(1), 0x890acd8dd443c47c);
    assert_eq!(zobrist_key(1536), 0x0cf4800477a6fe6e);
}

#[test]
fn key_of_a_piece_on_a_square() {
    let white_king = Piece { color: true, symbol: Symbol::King, has_moved: false, value: 10000, is_empty: false, current_square: (7, 4) };
    // Square 60, kind 5, White, unmoved: index 24 * 60 + 4 * 5 + 2.
    assert_eq!(zobrist_piece_key(60, &white_king), zobrist_key(1462));
    let moved = Piece { has_moved: true, ..white_king };
    assert_eq!(zobrist_piece_key(60, &moved), zobrist_key(1463));
    let black_pawn = Piece { color: false, symbol: Symbol::Pawn, has_moved: false, value: 100, is_empty: false, current_square: (0, 0) };
    assert_eq!(zobrist_piece_key(0, &black_pawn), zobrist_key(0));
    let empty = Piece { color: false, symbol: Symbol::Empty, has_moved: false, value: 0, is_empty: true, current_square: (3, 3) };
    assert_eq!(zobrist_piece_key(27, &empty), 0);
}

#[test]
fn hash_of_known_positions() {
    let board = initialize_chess_board();
    assert_eq!(zobrist_hash(&board, true), 0x8f0fa0d9c9b24a8a);
    assert_eq!(zobrist_hash(&board, false), 0x83fb20ddbe14b4e4);
    assert_eq!(zobrist_hash(&board, true) ^ zobrist_hash(&board, false), zobrist_key(1536));
    assert_eq!(zobrist_hash(&create_empty_board(), true), 0);

    let mut kings = create_empty_board();
    place_king_on_board(&mut kings, &(7, 4), true);
    place_king_on_board(&mut kings, &(0, 4), false);
    assert_eq!(zobrist_hash(&kings, true), 0xac0624ea60de8192);
}

#[test]
fn updated_hash_equals_recomputed_hash_along_a_game() {
    let mut board = initialize_chess_board();
    let mut side = true;
    let mut hash = zobrist_hash(&board, side);
    // Always the move in the middle of the list: a line of forty plies.
    for _ in 0..40 {
        let moves = get_all_legal_moves_for_this_turn(&board, side);
        if moves.is_empty() {
            break;
        }
        let m = moves[moves.len() / 2];
        hash = zobrist_after_move(hash, &board, &m);
        make_move(&mut board, &m);
        side = !side;
        assert_eq!(hash, zobrist_hash(&board, side));
    }
}

#[test]
fn updated_hash_equals_recomputed_hash_for_every_legal_move() {
    let mut board = create_empty_board();
    place_king_on_board(&mut board, &(7, 4), true);
    place_king_on_board(&mut board, &(0, 4), false);
    place_rook_on_board(&mut board, &(7, 0), true);
    place_rook_on_board(&mut board, &(7, 7), true);
    place_rook_on_board(&mut board, &(0, 0), false);
    place_pawn_on_board(&mut board, &(1, 2), true);
    place_knight_on_board(&mut board, &(0, 1), false);
    place_pawn_on_board(&mut board, &(6, 6), false);
    for side in [true, false] {
        let hash = zobrist_hash(&board, side);
        let moves = get_all_legal_moves_for_this_turn(&board, side);
        assert_eq!(moves.iter().any(|m| m.castle), side);
        assert!(moves.iter().any(|m| m.promotion != Promotion::NoPromotion));
        assert!(moves.iter().any(|m| !board[m.destination_square.0 as usize][m.destination_square.1 as usize].is_empty));
        for m in moves {
            let mut after = board;
            make_move(&mut after, &m);
            assert_eq!(zobrist_after_move(hash, &board, &m), zobrist_hash(&after, !side));
        }
    }
}

#[test]
fn hash_tells_moved_from_unmoved() {
    let mut board = create_empty_board();
    place_king_on_board(&mut board, &(7, 4), true);
    let before = zobrist_hash(&board, true);
    board[7][4].has_moved = true;
    assert_ne!(before, zobrist_hash(&board, true));
    let mut there_and_back = create_empty_board();
    place_king_on_board(&mut there_and_back, &(7, 4), true);
    make_move(&mut there_and_back, &step((7, 4), (6, 4)));
    make_move(&mut there_and_back, &step((6, 4), (7, 4)));
    assert_eq!(zobrist_hash(&there_and_back, true), zobrist_hash(&board, true));
}
