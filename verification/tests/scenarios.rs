use chess_engine::chess_board::{create_empty_board, get_char_symbol_for_symbol_enum, initialize_chess_board};
use chess_engine::pieces_logic::{
    create_empty_piece, find_all_legal_moves_for_a_piece, get_all_legal_moves_for_this_turn,
    get_castling_moves, get_legal_long_ray_moves, get_legal_moves_for_king,
    get_legal_moves_for_knight, get_legal_moves_for_pawn, get_legal_moves_for_queen,
    get_legal_moves_for_rook, get_square_of_king, is_checkmate, is_insufficient_material,
    is_king_in_check, is_piece_pinned, is_stalemate, make_move, make_square_empty,
    place_bishop_on_board, place_king_on_board, place_knight_on_board, place_pawn_on_board,
    place_queen_on_board, place_rook_on_board, Move, Piece, Promotion, Symbol,
};

fn step(from: (u8, u8), to: (u8, u8)) -> Move {
    Move { current_square: from, destination_square: to, castle: false, promotion: Promotion::NoPromotion }
}

fn castle(from: (u8, u8), to: (u8, u8)) -> Move {
    Move { current_square: from, destination_square: to, castle: true, promotion: Promotion::NoPromotion }
}

fn kings_only() -> [[Piece; 8]; 8] {
    let mut board = create_empty_board();
    place_king_on_board(&mut board, &(7, 4), true);
    place_king_on_board(&mut board, &(0, 4), false);
    board
}

fn count_kings(board: &[[Piece; 8]; 8], color: bool) -> usize {
    let mut n = 0;
    for row in board.iter() {
        for piece in row.iter() {
            if !piece.is_empty && piece.symbol == Symbol::King && piece.color == color {
                n += 1;
            }
        }
    }
    n
}

#[test]
fn start_position_has_twenty_moves_for_each_side() {
    let board = initialize_chess_board();
    assert_eq!(get_all_legal_moves_for_this_turn(&board, true).len(), 20);
    assert_eq!(get_all_legal_moves_for_this_turn(&board, false).len(), 20);
    assert!(!is_king_in_check(&board, true));
    assert!(!is_checkmate(&board, true));
    assert!(!is_stalemate(&board, true));
    assert!(!is_insufficient_material(&board));
}

#[test]
fn start_position_layout() {
    let board = initialize_chess_board();
    let back = [Symbol::Rook, Symbol::Knight, Symbol::Bishop, Symbol::Queen, Symbol::King, Symbol::Bishop, Symbol::Knight, Symbol::Rook];
    for c in 0..8usize {
        assert_eq!(board[0][c].symbol, back[c]);
        assert_eq!(board[7][c].symbol, back[c]);
        assert_eq!(board[1][c].symbol, Symbol::Pawn);
        assert_eq!(board[6][c].symbol, Symbol::Pawn);
        assert!(!board[0][c].color && !board[1][c].color);
        assert!(board[6][c].color && board[7][c].color);
        for r in 2..6usize {
            assert_eq!(board[r][c], create_empty_piece(&(r as u8, c as u8)));
        }
        for r in [0usize, 1, 6, 7] {
            assert_eq!(board[r][c].current_square, (r as u8, c as u8));
            assert!(!board[r][c].has_moved && !board[r][c].is_empty);
        }
    }
    assert_eq!(board[7][4].value, 10000);
    assert_eq!(board[7][3].value, 900);
    assert_eq!(board[7][0].value, 500);
    assert_eq!(board[7][2].value, 330);
    assert_eq!(board[7][1].value, 320);
    assert_eq!(board[6][0].value, 100);
}

#[test]
fn empty_board_and_editor() {
    let mut board = create_empty_board();
    for r in 0..8u8 {
        for c in 0..8u8 {
            assert_eq!(board[r as usize][c as usize], create_empty_piece(&(r, c)));
        }
    }
    place_queen_on_board(&mut board, &(3, 5), false);
    assert_eq!(
        board[3][5],
        Piece { color: false, symbol: Symbol::Queen, has_moved: false, value: 900, is_empty: false, current_square: (3, 5) }
    );
    make_square_empty(&mut board, &(3, 5));
    assert_eq!(board[3][5], create_empty_piece(&(3, 5)));
}

#[test]
fn piece_letters() {
    assert_eq!(get_char_symbol_for_symbol_enum(Symbol::King, true), 'K');
    assert_eq!(get_char_symbol_for_symbol_enum(Symbol::King, false), 'k');
    assert_eq!(get_char_symbol_for_symbol_enum(Symbol::Queen, true), 'Q');
    assert_eq!(get_char_symbol_for_symbol_enum(Symbol::Rook, false), 'r');
    assert_eq!(get_char_symbol_for_symbol_enum(Symbol::Bishop, true), 'B');
    assert_eq!(get_char_symbol_for_symbol_enum(Symbol::Knight, false), 'n');
    assert_eq!(get_char_symbol_for_symbol_enum(Symbol::Pawn, true), 'P');
    assert_eq!(get_char_symbol_for_symbol_enum(Symbol::Empty, true), ' ');
    assert_eq!(get_char_symbol_for_symbol_enum(Symbol::Empty, false), ' ');
}

#[test]
fn castling_both_ways_for_white() {
    let mut board = create_empty_board();
    place_king_on_board(&mut board, &(7, 4), true);
    place_rook_on_board(&mut board, &(7, 0), true);
    place_rook_on_board(&mut board, &(7, 7), true);
    assert_eq!(get_castling_moves(&board, true), vec![castle((7, 4), (7, 2)), castle((7, 4), (7, 6))]);
    let king_moves = get_legal_moves_for_king(&board, &(7, 4));
    assert!(king_moves.contains(&castle((7, 4), (7, 2))));
    assert!(king_moves.contains(&castle((7, 4), (7, 6))));
}

#[test]
fn castling_both_ways_for_black() {
    let mut board = create_empty_board();
    place_king_on_board(&mut board, &(0, 4), false);
    place_rook_on_board(&mut board, &(0, 0), false);
    place_rook_on_board(&mut board, &(0, 7), false);
    assert_eq!(get_castling_moves(&board, false), vec![castle((0, 4), (0, 2)), castle((0, 4), (0, 6))]);
}

#[test]
fn castling_needs_unmoved_king_and_rook() {
    let mut board = create_empty_board();
    place_king_on_board(&mut board, &(7, 4), true);
    place_rook_on_board(&mut board, &(7, 0), true);
    place_rook_on_board(&mut board, &(7, 7), true);
    board[7][0].has_moved = true;
    assert_eq!(get_castling_moves(&board, true), vec![castle((7, 4), (7, 6))]);
    board[7][4].has_moved = true;
    assert_eq!(get_castling_moves(&board, true), vec![]);
}

#[test]
fn castling_needs_a_rook_of_the_same_colour() {
    let mut board = create_empty_board();
    place_king_on_board(&mut board, &(7, 4), true);
    place_rook_on_board(&mut board, &(7, 0), false);
    place_bishop_on_board(&mut board, &(7, 7), true);
    place_pawn_on_board(&mut board, &(6, 0), true);
    assert_eq!(get_castling_moves(&board, true), vec![]);
}

#[test]
fn castling_needs_the_king_at_home() {
    let mut board = create_empty_board();
    place_king_on_board(&mut board, &(7, 3), true);
    place_rook_on_board(&mut board, &(7, 0), true);
    place_rook_on_board(&mut board, &(7, 7), true);
    assert_eq!(get_castling_moves(&board, true), vec![]);
}

#[test]
fn no_castling_out_of_through_or_into_check() {
    let mut board = create_empty_board();
    place_king_on_board(&mut board, &(7, 4), true);
    place_rook_on_board(&mut board, &(7, 0), true);
    place_rook_on_board(&mut board, &(7, 7), true);

    // In check.
    place_rook_on_board(&mut board, &(0, 4), false);
    assert_eq!(get_castling_moves(&board, true), vec![]);
    make_square_empty(&mut board, &(0, 4));

    // The square that the king passes on the king's side is attacked.
    place_rook_on_board(&mut board, &(0, 5), false);
    assert_eq!(get_castling_moves(&board, true), vec![castle((7, 4), (7, 2))]);
    make_square_empty(&mut board, &(0, 5));

    // The square that the king lands on on the queen's side is attacked.
    place_rook_on_board(&mut board, &(0, 2), false);
    assert_eq!(get_castling_moves(&board, true), vec![castle((7, 4), (7, 6))]);
    make_square_empty(&mut board, &(0, 2));

    // An attack on b1 alone does not matter: the king does not pass it.
    place_rook_on_board(&mut board, &(0, 1), false);
    assert_eq!(get_castling_moves(&board, true), vec![castle((7, 4), (7, 2)), castle((7, 4), (7, 6))]);
}

#[test]
fn no_castling_next_to_the_other_king() {
    let mut board = create_empty_board();
    place_king_on_board(&mut board, &(7, 4), true);
    place_rook_on_board(&mut board, &(7, 0), true);
    place_rook_on_board(&mut board, &(7, 7), true);
    place_king_on_board(&mut board, &(6, 6), false);
    // f1 and g1 are next to the black king on g2; the queen's side is free.
    assert_eq!(get_castling_moves(&board, true), vec![castle((7, 4), (7, 2))]);
}

#[test]
fn castle_move_brings_the_rook_over() {
    let mut board = create_empty_board();
    place_king_on_board(&mut board, &(7, 4), true);
    place_rook_on_board(&mut board, &(7, 0), true);
    place_rook_on_board(&mut board, &(7, 7), true);
    let mut short = board;
    make_move(&mut short, &castle((7, 4), (7, 6)));
    assert_eq!(short[7][6], Piece { color: true, symbol: Symbol::King, has_moved: true, value: 10000, is_empty: false, current_square: (7, 6) });
    assert_eq!(short[7][5], Piece { color: true, symbol: Symbol::Rook, has_moved: true, value: 500, is_empty: false, current_square: (7, 5) });
    assert_eq!(short[7][4], create_empty_piece(&(7, 4)));
    assert_eq!(short[7][7], create_empty_piece(&(7, 7)));
    assert_eq!(short[7][0], board[7][0]);

    let mut long = board;
    make_move(&mut long, &castle((7, 4), (7, 2)));
    assert_eq!(long[7][2].symbol, Symbol::King);
    assert_eq!(long[7][3], Piece { color: true, symbol: Symbol::Rook, has_moved: true, value: 500, is_empty: false, current_square: (7, 3) });
    assert_eq!(long[7][0], create_empty_piece(&(7, 0)));
    assert_eq!(long[7][4], create_empty_piece(&(7, 4)));
    assert_eq!(long[7][7], board[7][7]);

    let mut black = create_empty_board();
    place_king_on_board(&mut black, &(0, 4), false);
    place_rook_on_board(&mut black, &(0, 7), false);
    make_move(&mut black, &castle((0, 4), (0, 6)));
    assert_eq!(black[0][5], Piece { color: false, symbol: Symbol::Rook, has_moved: true, value: 500, is_empty: false, current_square: (0, 5) });
    assert_eq!(black[0][6].symbol, Symbol::King);
    assert_eq!(black[0][7], create_empty_piece(&(0, 7)));
}

#[test]
fn promotion_keeps_the_colour_of_the_pawn() {
    let mut board = kings_only();
    place_pawn_on_board(&mut board, &(1, 0), true);
    place_pawn_on_board(&mut board, &(6, 7), false);
    make_move(&mut board, &Move { current_square: (1, 0), destination_square: (0, 0), castle: false, promotion: Promotion::Queen });
    assert_eq!(board[0][0], Piece { color: true, symbol: Symbol::Queen, has_moved: true, value: 900, is_empty: false, current_square: (0, 0) });
    assert_eq!(board[1][0], create_empty_piece(&(1, 0)));
    make_move(&mut board, &Move { current_square: (6, 7), destination_square: (7, 7), castle: false, promotion: Promotion::Knight });
    assert_eq!(board[7][7], Piece { color: false, symbol: Symbol::Knight, has_moved: true, value: 320, is_empty: false, current_square: (7, 7) });

    let mut other = kings_only();
    place_pawn_on_board(&mut other, &(1, 0), true);
    make_move(&mut other, &Move { current_square: (1, 0), destination_square: (0, 0), castle: false, promotion: Promotion::Rook });
    assert_eq!((other[0][0].symbol, other[0][0].value), (Symbol::Rook, 500));
    let mut third = kings_only();
    place_pawn_on_board(&mut third, &(1, 0), true);
    make_move(&mut third, &Move { current_square: (1, 0), destination_square: (0, 0), castle: false, promotion: Promotion::Bishop });
    assert_eq!((third[0][0].symbol, third[0][0].value), (Symbol::Bishop, 330));
}

#[test]
fn pawn_on_its_first_rank_has_two_pushes() {
    let mut board = kings_only();
    place_pawn_on_board(&mut board, &(6, 2), true);
    assert_eq!(get_legal_moves_for_pawn(&board, &(6, 2)), vec![step((6, 2), (5, 2)), step((6, 2), (4, 2))]);
    place_pawn_on_board(&mut board, &(1, 2), false);
    assert_eq!(get_legal_moves_for_pawn(&board, &(1, 2)), vec![step((1, 2), (2, 2)), step((1, 2), (3, 2))]);
    // A piece on the far square leaves the single push; one on the near square leaves nothing.
    place_knight_on_board(&mut board, &(4, 2), false);
    assert_eq!(get_legal_moves_for_pawn(&board, &(6, 2)), vec![step((6, 2), (5, 2))]);
    place_knight_on_board(&mut board, &(5, 2), false);
    assert_eq!(get_legal_moves_for_pawn(&board, &(6, 2)), vec![]);
}

#[test]
fn pawn_facing_three_enemies_promotes_on_the_open_squares() {
    let mut board = create_empty_board();
    place_king_on_board(&mut board, &(7, 4), true);
    place_pawn_on_board(&mut board, &(1, 4), true);
    board[1][4].has_moved = true;
    place_knight_on_board(&mut board, &(0, 3), false);
    place_knight_on_board(&mut board, &(0, 4), false);
    place_knight_on_board(&mut board, &(0, 5), false);
    let moves = get_legal_moves_for_pawn(&board, &(1, 4));
    let kinds = [Promotion::Queen, Promotion::Rook, Promotion::Bishop, Promotion::Knight];
    let mut expected = vec![];
    for to in [(0u8, 5u8), (0u8, 3u8)] {
        for kind in kinds {
            expected.push(Move { current_square: (1, 4), destination_square: to, castle: false, promotion: kind });
        }
    }
    assert_eq!(moves, expected);
}

#[test]
fn black_pawn_promotes_on_row_seven() {
    let mut board = kings_only();
    place_pawn_on_board(&mut board, &(6, 0), false);
    board[6][0].has_moved = true;
    let moves = get_legal_moves_for_pawn(&board, &(6, 0));
    assert_eq!(moves.len(), 4);
    for m in &moves {
        assert_eq!(m.destination_square, (7, 0));
        assert_ne!(m.promotion, Promotion::NoPromotion);
    }
}

#[test]
fn double_push_is_filtered_on_its_own() {
    // The rook on a4 checks the king on h4 along the rank.
    let mut board = create_empty_board();
    place_king_on_board(&mut board, &(4, 7), true);
    place_rook_on_board(&mut board, &(4, 0), false);
    place_pawn_on_board(&mut board, &(6, 2), true);
    assert!(is_king_in_check(&board, true));
    // The single push to c3 does not block; the double push to c4 does.
    assert_eq!(get_legal_moves_for_pawn(&board, &(6, 2)), vec![step((6, 2), (4, 2))]);
}

#[test]
fn pawn_does_not_capture_a_king_or_a_friend() {
    let mut board = create_empty_board();
    place_king_on_board(&mut board, &(7, 4), true);
    place_pawn_on_board(&mut board, &(4, 4), true);
    board[4][4].has_moved = true;
    place_king_on_board(&mut board, &(3, 5), false);
    place_knight_on_board(&mut board, &(3, 3), true);
    assert_eq!(get_legal_moves_for_pawn(&board, &(4, 4)), vec![step((4, 4), (3, 4))]);
}

#[test]
fn rook_check_is_lifted_by_any_piece_in_between() {
    for king_color in [true, false] {
        let mut board = create_empty_board();
        place_king_on_board(&mut board, &(4, 4), king_color);
        place_rook_on_board(&mut board, &(1, 4), !king_color);
        assert!(is_king_in_check(&board, king_color));
        for blocker_color in [true, false] {
            place_knight_on_board(&mut board, &(2, 4), blocker_color);
            assert!(!is_king_in_check(&board, king_color));
            place_bishop_on_board(&mut board, &(2, 4), blocker_color);
            assert!(!is_king_in_check(&board, king_color));
        }
        make_square_empty(&mut board, &(2, 4));
        assert!(is_king_in_check(&board, king_color));
    }
}

#[test]
fn pawns_check_only_forwards() {
    let mut board = create_empty_board();
    place_king_on_board(&mut board, &(4, 4), true);
    // A white pawn never checks the white king.
    place_pawn_on_board(&mut board, &(3, 3), true);
    assert!(!is_king_in_check(&board, true));
    place_pawn_on_board(&mut board, &(3, 3), false);
    assert!(is_king_in_check(&board, true));
    make_square_empty(&mut board, &(3, 3));
    place_pawn_on_board(&mut board, &(5, 5), false);
    assert!(!is_king_in_check(&board, true));
}

#[test]
fn king_is_found_by_colour() {
    let mut board = create_empty_board();
    place_king_on_board(&mut board, &(2, 6), true);
    place_king_on_board(&mut board, &(7, 4), false);
    assert_eq!(get_square_of_king(&board, true), (2, 6));
    assert_eq!(get_square_of_king(&board, false), (7, 4));
}

#[test]
fn kings_keep_apart() {
    let mut board = create_empty_board();
    place_king_on_board(&mut board, &(4, 4), true);
    place_king_on_board(&mut board, &(4, 6), false);
    let mut moves = get_legal_moves_for_king(&board, &(4, 4));
    moves.sort();
    let mut expected = vec![
        step((4, 4), (3, 3)), step((4, 4), (3, 4)), step((4, 4), (4, 3)),
        step((4, 4), (5, 3)), step((4, 4), (5, 4)),
    ];
    expected.sort();
    assert_eq!(moves, expected);
}

#[test]
fn no_piece_captures_the_king() {
    let mut board = create_empty_board();
    place_king_on_board(&mut board, &(7, 7), true);
    place_king_on_board(&mut board, &(0, 4), false);
    place_rook_on_board(&mut board, &(4, 4), true);
    place_knight_on_board(&mut board, &(2, 3), true);
    place_queen_on_board(&mut board, &(0, 0), true);
    for m in get_legal_moves_for_rook(&board, &(4, 4)) {
        assert_ne!(m.destination_square, (0, 4));
    }
    for m in get_legal_moves_for_knight(&board, &(2, 3)) {
        assert_ne!(m.destination_square, (0, 4));
    }
    let queen = get_legal_moves_for_queen(&board, &(0, 0));
    assert!(queen.contains(&step((0, 0), (0, 3))));
    for m in queen {
        assert_ne!(m.destination_square, (0, 4));
        // The ray ends before the king: nothing beyond it either.
        assert!(!(m.destination_square.0 == 0 && m.destination_square.1 > 4));
    }
    // The rook's ray up the e-file stops below the king.
    assert!(get_legal_moves_for_rook(&board, &(4, 4)).contains(&step((4, 4), (1, 4))));
}

#[test]
fn rays_come_in_the_order_of_their_directions() {
    let mut board = create_empty_board();
    place_king_on_board(&mut board, &(7, 7), true);
    place_rook_on_board(&mut board, &(1, 1), true);
    let moves = get_legal_long_ray_moves(&board, &(1, 1), [(-1, 0), (0, -1), (0, 0), (1, 1)]);
    assert_eq!(
        moves,
        vec![
            step((1, 1), (0, 1)), step((1, 1), (1, 0)),
            step((1, 1), (2, 2)), step((1, 1), (3, 3)), step((1, 1), (4, 4)),
            step((1, 1), (5, 5)), step((1, 1), (6, 6)),
        ]
    );
}

#[test]
fn empty_square_has_no_moves() {
    let board = kings_only();
    assert_eq!(find_all_legal_moves_for_a_piece(&board, &(3, 3)), vec![]);
    assert_eq!(find_all_legal_moves_for_a_piece(&board, &(7, 4)).len(), 5);
}

#[test]
fn pinned_piece_test_follows_the_move() {
    let mut board = create_empty_board();
    place_king_on_board(&mut board, &(7, 4), true);
    place_rook_on_board(&mut board, &(5, 4), true);
    place_rook_on_board(&mut board, &(0, 4), false);
    // Along the file the rook stays between; sideways it uncovers the king.
    assert!(!is_piece_pinned(&board, &step((5, 4), (3, 4))));
    assert!(!is_piece_pinned(&board, &step((5, 4), (0, 4))));
    assert!(is_piece_pinned(&board, &step((5, 4), (5, 0))));
}

#[test]
fn legal_moves_leave_the_king_safe() {
    let mut boards = vec![initialize_chess_board()];
    let mut board = create_empty_board();
    place_king_on_board(&mut board, &(7, 4), true);
    place_king_on_board(&mut board, &(0, 4), false);
    place_rook_on_board(&mut board, &(7, 0), true);
    place_rook_on_board(&mut board, &(7, 7), true);
    place_queen_on_board(&mut board, &(3, 4), false);
    place_knight_on_board(&mut board, &(5, 4), true);
    place_pawn_on_board(&mut board, &(1, 1), true);
    place_bishop_on_board(&mut board, &(2, 6), false);
    boards.push(board);
    for board in boards {
        for side in [true, false] {
            for m in get_all_legal_moves_for_this_turn(&board, side) {
                let mut after = board;
                make_move(&mut after, &m);
                assert!(!is_king_in_check(&after, side));
                assert_eq!(count_kings(&after, true), 1);
                assert_eq!(count_kings(&after, false), 1);
            }
        }
    }
}

#[test]
fn generation_is_repeatable() {
    let board = initialize_chess_board();
    assert_eq!(get_all_legal_moves_for_this_turn(&board, true), get_all_legal_moves_for_this_turn(&board, true));
    let copy = board;
    assert_eq!(get_all_legal_moves_for_this_turn(&board, false), get_all_legal_moves_for_this_turn(&copy, false));
}

#[test]
fn checkmate_and_stalemate_exclude_each_other() {
    let mut mate = create_empty_board();
    place_king_on_board(&mut mate, &(7, 4), true);
    place_rook_on_board(&mut mate, &(6, 0), false);
    place_rook_on_board(&mut mate, &(7, 7), false);
    assert!(is_checkmate(&mate, true) && !is_stalemate(&mate, true));
    assert!(is_king_in_check(&mate, true));
    assert!(get_all_legal_moves_for_this_turn(&mate, true).is_empty());

    let mut stale = create_empty_board();
    place_king_on_board(&mut stale, &(0, 0), false);
    place_king_on_board(&mut stale, &(2, 1), true);
    place_queen_on_board(&mut stale, &(1, 2), true);
    assert!(is_stalemate(&stale, false) && !is_checkmate(&stale, false));
    assert!(!is_king_in_check(&stale, false));
}

#[test]
fn material_that_cannot_mate() {
    let mut board = kings_only();
    assert!(is_insufficient_material(&board));
    place_knight_on_board(&mut board, &(4, 4), true);
    place_bishop_on_board(&mut board, &(3, 3), false);
    assert!(is_insufficient_material(&board));
    place_knight_on_board(&mut board, &(4, 5), true);
    assert!(!is_insufficient_material(&board));
    make_square_empty(&mut board, &(4, 5));
    for sq in [(5u8, 5u8)] {
        place_pawn_on_board(&mut board, &sq, false);
        assert!(!is_insufficient_material(&board));
        place_rook_on_board(&mut board, &sq, true);
        assert!(!is_insufficient_material(&board));
        place_queen_on_board(&mut board, &sq, false);
        assert!(!is_insufficient_material(&board));
        make_square_empty(&mut board, &sq);
        assert!(is_insufficient_material(&board));
    }
}
