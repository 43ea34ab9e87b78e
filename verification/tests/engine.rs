use chess::chess_engine::ChessBoard;
use chess::chess_engine::Move;
use chess::chess_engine::Piece;
use chess::chess_engine::PieceKind;

fn snapshot(board: &ChessBoard) -> Vec<Option<Piece>> {
    let mut cells = Vec::new();
    for row in 0..8 {
        for col in 0..8 {
            cells.push(board.get_piece(row, col));
        }
    }
    cells
}

#[test]
fn same_cell_move_rejected() {
    let mut board = ChessBoard::normal_setup();
    let before = snapshot(&board);
    assert!(!board.move_piece(Move::new((0, 0), (0, 0))));
    assert!(!board.move_piece(Move::new((1, 4), (1, 4))));
    assert!(!board.move_piece(Move::new((7, 4), (7, 4))));
    assert_eq!(snapshot(&board), before);
}

#[test]
fn out_of_bounds_move_rejected() {
    let mut board = ChessBoard::normal_setup();
    let before = snapshot(&board);
    assert!(!board.move_piece(Move::new((0, 0), (0, 8))));
    assert!(!board.move_piece(Move::new((8, 0), (1, 0))));
    assert!(!board.move_piece(Move::new((0, 0), (9, 9))));
    assert!(!board.move_piece(Move::new((25, 8), (0, 0))));
    assert_eq!(snapshot(&board), before);
}

#[test]
fn empty_source_rejected() {
    let mut board = ChessBoard::normal_setup();
    let before = snapshot(&board);
    assert!(!board.move_piece(Move::new((3, 3), (4, 4))));
    assert_eq!(snapshot(&board), before);
}

#[test]
fn pawn_steps_forward() {
    let mut board = ChessBoard::normal_setup();
    assert!(board.move_piece(Move::new((1, 0), (2, 0))));
    assert_eq!(board.get_piece(1, 0), None);
    assert_eq!(board.get_piece(2, 0), Some(Piece::new(PieceKind::Pawn, 0)));
}

#[test]
fn pawn_cannot_step_backward() {
    let mut board = ChessBoard::normal_setup();
    board.set_piece(4, 0, Piece::new(PieceKind::Pawn, 0));
    assert!(!board.move_piece(Move::new((4, 0), (3, 0))));
    assert!(board.move_piece(Move::new((6, 0), (5, 0))));
    assert!(!board.move_piece(Move::new((5, 0), (6, 0))));
}

#[test]
fn pawn_bounded_to_two_rows_one_column() {
    let mut board = ChessBoard::normal_setup();
    assert!(!board.move_piece(Move::new((1, 0), (4, 0))));
    assert!(!board.move_piece(Move::new((1, 4), (2, 6))));
}

#[test]
fn pawn_diagonal_needs_enemy() {
    let mut board = ChessBoard::normal_setup();
    // (2,5) empty: the diagonal step is refused
    assert!(!board.move_piece(Move::new((1, 4), (2, 5))));

    // (2,5) held by the same owner: refused
    board.set_piece(2, 5, Piece::new(PieceKind::Knight, 0));
    assert!(!board.move_piece(Move::new((1, 4), (2, 5))));

    // (2,5) held by the opposing owner: allowed, and the occupant is replaced
    board.set_piece(2, 5, Piece::new(PieceKind::Knight, 1));
    assert!(board.move_piece(Move::new((1, 4), (2, 5))));
    assert_eq!(board.get_piece(1, 4), None);
    assert_eq!(board.get_piece(2, 5), Some(Piece::new(PieceKind::Pawn, 0)));
}

#[test]
fn rook_moves_along_rank() {
    let mut board = ChessBoard::normal_setup();
    for col in 1..7 {
        board.remove_piece(0, col);
    }
    assert!(board.move_piece(Move::new((0, 0), (0, 7))));
    assert_eq!(board.get_piece(0, 0), None);
    assert_eq!(board.get_piece(0, 7), Some(Piece::new(PieceKind::Rook, 0)));
}

#[test]
fn rook_off_line_rejected() {
    let mut board = ChessBoard::normal_setup();
    assert!(!board.move_piece(Move::new((0, 0), (3, 3))));
    for col in 1..7 {
        board.remove_piece(0, col);
    }
    assert!(!board.move_piece(Move::new((0, 0), (3, 3))));
}

#[test]
fn rook_path_is_not_checked() {
    // the rule checks the line only: a rook slides over its own back rank
    let mut board = ChessBoard::normal_setup();
    assert!(board.move_piece(Move::new((0, 0), (0, 5))));
    assert_eq!(board.get_piece(0, 0), None);
    assert_eq!(board.get_piece(0, 5), Some(Piece::new(PieceKind::Rook, 0)));
}

#[test]
fn bishop_blocked_by_occupant() {
    let mut board = ChessBoard::normal_setup();
    // (1,3) holds a pawn: the diagonal is blocked
    assert!(!board.move_piece(Move::new((0, 2), (2, 4))));
    board.remove_piece(1, 3);
    assert!(board.move_piece(Move::new((0, 2), (2, 4))));
    assert_eq!(board.get_piece(0, 2), None);
    assert_eq!(board.get_piece(2, 4), Some(Piece::new(PieceKind::Bishop, 0)));
}

#[test]
fn bishop_off_diagonal_rejected() {
    let mut board = ChessBoard::normal_setup();
    board.remove_piece(1, 3);
    assert!(!board.move_piece(Move::new((0, 2), (2, 3))));
}

#[test]
fn knight_l_shape() {
    let mut board = ChessBoard::normal_setup();
    assert!(board.move_piece(Move::new((0, 1), (2, 2))));
    assert_eq!(board.get_piece(0, 1), None);
    assert_eq!(board.get_piece(2, 2), Some(Piece::new(PieceKind::Knight, 0)));
}

#[test]
fn knight_non_l_rejected() {
    let mut board = ChessBoard::normal_setup();
    assert!(!board.move_piece(Move::new((0, 1), (2, 3))));
}

#[test]
fn knight_one_one_step_is_not_refused() {
    // the rule refuses only the two stated patterns, so a (1,1) step
    // passes it and lands on the same-owner pawn
    let mut board = ChessBoard::normal_setup();
    assert!(board.move_piece(Move::new((0, 1), (1, 1))));
    assert_eq!(board.get_piece(0, 1), None);
    assert_eq!(board.get_piece(1, 1), Some(Piece::new(PieceKind::Knight, 0)));
}

#[test]
fn queen_diagonal_and_straight() {
    let mut board = ChessBoard::normal_setup();
    // blocked by the pawn at (1,3)
    assert!(!board.move_piece(Move::new((0, 3), (3, 3))));
    board.remove_piece(1, 3);
    assert!(board.move_piece(Move::new((0, 3), (3, 3))));
    // off both line and diagonal
    assert!(!board.move_piece(Move::new((3, 3), (5, 4))));
    // clear diagonal
    assert!(board.move_piece(Move::new((3, 3), (5, 5))));
    assert_eq!(board.get_piece(5, 5), Some(Piece::new(PieceKind::Queen, 0)));
}

#[test]
fn queen_blocked_paths() {
    let mut board = ChessBoard::normal_setup();
    // straight path blocked by the pawn at (1,3)
    assert!(!board.move_piece(Move::new((0, 3), (7, 3))));
    // diagonal path blocked by the pawn at (1,4)
    assert!(!board.move_piece(Move::new((0, 3), (2, 5))));
}

#[test]
fn king_single_step_only() {
    let mut board = ChessBoard::normal_setup();
    board.remove_piece(1, 4);
    assert!(!board.move_piece(Move::new((0, 4), (2, 4))));
    assert!(board.move_piece(Move::new((0, 4), (1, 4))));
    assert_eq!(board.get_piece(1, 4), Some(Piece::new(PieceKind::King, 0)));
    assert!(board.move_piece(Move::new((1, 4), (2, 5))));
    assert_eq!(board.get_piece(2, 5), Some(Piece::new(PieceKind::King, 0)));
}

#[test]
fn pawn_double_step_from_setup() {
    let mut board = ChessBoard::normal_setup();
    assert!(board.move_piece(Move::new((1, 4), (3, 4))));
    assert_eq!(board.get_piece(1, 4), None);
    assert_eq!(board.get_piece(3, 4), Some(Piece::new(PieceKind::Pawn, 0)));
    // no rule ties the double step to a starting rank: a second one passes
    // the same geometric bound
    assert!(board.move_piece(Move::new((3, 4), (5, 4))));
    assert_eq!(board.get_piece(3, 4), None);
    assert_eq!(board.get_piece(5, 4), Some(Piece::new(PieceKind::Pawn, 0)));
}

#[test]
fn parsed_move_succeeds_from_setup() {
    // "e2 e4" parses to (1,4) -> (3,4): the owner-0 pawn on the e file
    // takes its double step from the canonical setup
    let mut board = ChessBoard::normal_setup();
    let mv = Move::parse("e2 e4").unwrap();
    assert_eq!(mv.from, (1, 4));
    assert_eq!(mv.to, (3, 4));
    assert!(board.move_piece(mv));
    assert_eq!(board.get_piece(1, 4), None);
    assert_eq!(board.get_piece(3, 4), Some(Piece::new(PieceKind::Pawn, 0)));
}
