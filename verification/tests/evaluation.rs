use chess_engine::chess_board::{create_empty_board, initialize_chess_board};
use chess_engine::evaluation::{evaluate as evaluate_position, score_piece};
use chess_engine::pieces_logic::{
    evaluate, make_move, place_bishop_on_board, place_king_on_board, place_knight_on_board,
    place_pawn_on_board, place_queen_on_board, place_rook_on_board, Move, Piece, Promotion, Symbol,
};

#[test]
fn balanced_positions_score_zero() {
    assert_eq!(evaluate(&create_empty_board()), 0);
    assert_eq!(evaluate(&initialize_chess_board()), 0);
    assert_eq!(evaluate_position(&initialize_chess_board()), 0);
}

#[test]
fn single_pieces() {
    let mut board = create_empty_board();
    // King on e1: no material, placement 0.
    place_king_on_board(&mut board, &(7, 4), true);
    assert_eq!(evaluate(&board), 0);
    // King on g1: placement 30.
    let mut castled = create_empty_board();
    place_king_on_board(&mut castled, &(7, 6), true);
    assert_eq!(evaluate(&castled), 30);
    // Pawn on e4: 100 + 20.
    place_pawn_on_board(&mut board, &(4, 4), true);
    assert_eq!(evaluate(&board), 120);
    // Knight on a8 for White: 320 - 50.
    place_knight_on_board(&mut board, &(0, 0), true);
    assert_eq!(evaluate(&board), 120 + 270);
    // Black queen on d8 is scored as a white queen on d1: -(900 - 5).
    place_queen_on_board(&mut board, &(0, 3), false);
    assert_eq!(evaluate(&board), 120 + 270 - 895);
    // Black rook on b2 is scored as a white rook on b7: -(500 + 10).
    place_rook_on_board(&mut board, &(6, 1), false);
    assert_eq!(evaluate(&board), 120 + 270 - 895 - 510);
    // White bishop on c3: 330 + 10.
    place_bishop_on_board(&mut board, &(5, 2), true);
    assert_eq!(evaluate(&board), 120 + 270 - 895 - 510 + 340);
}

#[test]
fn score_of_one_piece() {
    let pawn = Piece { color: true, symbol: Symbol::Pawn, has_moved: true, value: 100, is_empty: false, current_square: (1, 0) };
    assert_eq!(score_piece(&pawn, 8), 150);
    let black = Piece { color: false, ..pawn };
    assert_eq!(score_piece(&black, 8), -105);
    assert_eq!(score_piece(&black, 48), -150);
    let none = Piece { color: true, symbol: Symbol::Empty, has_moved: false, value: 0, is_empty: true, current_square: (0, 0) };
    assert_eq!(score_piece(&none, 0), 0);
}

#[test]
fn colours_mirror_each_other() {
    let mut white = create_empty_board();
    place_rook_on_board(&mut white, &(6, 3), true);
    place_pawn_on_board(&mut white, &(3, 6), true);
    let mut black = create_empty_board();
    place_rook_on_board(&mut black, &(1, 3), false);
    place_pawn_on_board(&mut black, &(4, 6), false);
    assert_eq!(evaluate(&white), -evaluate(&black));
    assert_eq!(evaluate(&white), 500 + 0 + 100 + 5);
}

#[test]
fn score_follows_the_kind_not_the_stamp() {
    let mut board = create_empty_board();
    place_pawn_on_board(&mut board, &(4, 0), true);
    board[4][0].value = 7;
    assert_eq!(evaluate(&board), 100);
    make_move(&mut board, &Move { current_square: (4, 0), destination_square: (3, 0), castle: false, promotion: Promotion::NoPromotion });
    assert_eq!(evaluate(&board), 105);
}
