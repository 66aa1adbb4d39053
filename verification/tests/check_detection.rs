use chess::board::Board;
use chess::board::Color;
use chess::board::Piece;
use chess::board::PieceKind;
use chess::check::find_sole_king;
use chess::check::get_king_location;
use chess::check::is_checked;
use chess::game::apply_move;
use chess::game::Game;
use chess::rules::get_moves;
use chess::rules::has_no_valid_moves;
use chess::rules::position_evaluable;
use chess::rules::probe_safe_for;

fn two_kings_board() -> Board {
    let mut board = Board::empty();
    board.set((4, 0), Some(Piece { kind: PieceKind::King, color: Color::Black }));
    board.set((4, 7), Some(Piece { kind: PieceKind::King, color: Color::White }));
    board
}

#[test]
fn rook_on_the_kings_file_gives_check_and_leaves_without_it() {
    let mut board = two_kings_board();
    // White king off the shared file, so the rook's line is clear.
    board.set((4, 7), None);
    board.set((0, 7), Some(Piece { kind: PieceKind::King, color: Color::White }));
    board.set((4, 5), Some(Piece { kind: PieceKind::Rook, color: Color::White }));
    let game = Game { board, cur_en_passant: None, is_checked: false };
    assert!(is_checked(&game, Color::Black));

    let mut board = two_kings_board();
    board.set((4, 7), None);
    board.set((0, 7), Some(Piece { kind: PieceKind::King, color: Color::White }));
    let game = Game { board, cur_en_passant: None, is_checked: false };
    assert!(!is_checked(&game, Color::Black));
}

#[test]
fn an_interposed_piece_blocks_the_rook_check() {
    let mut board = two_kings_board();
    board.set((4, 7), None);
    board.set((0, 7), Some(Piece { kind: PieceKind::King, color: Color::White }));
    board.set((4, 5), Some(Piece { kind: PieceKind::Rook, color: Color::White }));
    board.set((4, 3), Some(Piece { kind: PieceKind::Knight, color: Color::Black }));
    let game = Game { board, cur_en_passant: None, is_checked: false };
    assert!(!is_checked(&game, Color::Black));
}

#[test]
fn bishop_and_knight_checks_are_detected() {
    let mut board = two_kings_board();
    board.set((1, 3), Some(Piece { kind: PieceKind::Bishop, color: Color::White }));
    let game = Game { board, cur_en_passant: None, is_checked: false };
    assert!(is_checked(&game, Color::Black));

    let mut board = two_kings_board();
    board.set((3, 2), Some(Piece { kind: PieceKind::Knight, color: Color::White }));
    let game = Game { board, cur_en_passant: None, is_checked: false };
    assert!(is_checked(&game, Color::Black));
}

#[test]
fn the_kings_are_found_where_they_stand() {
    let board = two_kings_board();
    assert_eq!(get_king_location(&board, Color::Black), (4, 0));
    assert_eq!(get_king_location(&board, Color::White), (4, 7));
    assert_eq!(find_sole_king(&board, Color::Black), Some((4, 0)));
    let mut board = two_kings_board();
    board.set((0, 0), Some(Piece { kind: PieceKind::King, color: Color::Black }));
    assert_eq!(find_sole_king(&board, Color::Black), None);
}

#[test]
fn en_passant_eligibility_lasts_exactly_one_ply() {
    // White: e2 -> e4; Black: d7 -> d5. The double step records d5 as the
    // target, and the White pawn whose forward diagonal reaches d5 now has
    // that capture as its single move.
    let game = Game::new();
    let (game, _) = apply_move((4, 6), (4, 4), &game, Color::White).unwrap();
    let (game, _) = apply_move((3, 1), (3, 3), &game, Color::Black).unwrap();
    assert_eq!(game.cur_en_passant, Some((3, 3)));
    assert_eq!(get_moves((4, 4), &game), vec![(-1, -1)]);

    // If White plays something else instead, the target is cleared and
    // the pawn is back to its plain forward step.
    let (game, _) = apply_move((6, 7), (5, 5), &game, Color::White).unwrap();
    assert_eq!(game.cur_en_passant, None);
    let (game, _) = apply_move((0, 1), (0, 2), &game, Color::Black).unwrap();
    assert_eq!(get_moves((4, 4), &game), vec![(0, -1)]);
}

#[test]
fn the_en_passant_capture_takes_the_doubled_pawn() {
    let game = Game::new();
    let (game, _) = apply_move((4, 6), (4, 4), &game, Color::White).unwrap();
    let (game, _) = apply_move((3, 1), (3, 3), &game, Color::Black).unwrap();
    let (game, _) = apply_move((4, 4), (3, 3), &game, Color::White).unwrap();
    assert_eq!(
        game.board.get((3, 3)),
        Some(Piece { kind: PieceKind::Pawn, color: Color::White })
    );
    assert_eq!(game.board.get((4, 4)), None);
}

#[test]
fn every_starting_piece_is_probe_safe_and_start_has_moves() {
    let game = Game::new();
    for x in 0..8usize {
        for y in 0..8usize {
            if game.board.get((x, y)).is_some() {
                assert!(probe_safe_for(&game, (x, y)));
            }
        }
    }
    assert!(!has_no_valid_moves(&game, Color::White));
    assert!(!has_no_valid_moves(&game, Color::Black));
    assert!(position_evaluable((4, 6), (4, 4), &game, Color::White));
}

#[test]
fn a_piece_that_could_take_the_king_is_not_probe_safe() {
    // The white rook's sliding pattern reaches the black king: probing
    // its candidates would capture a king, which probe safety forbids.
    let mut board = Board::empty();
    board.set((4, 0), Some(Piece { kind: PieceKind::King, color: Color::Black }));
    board.set((0, 7), Some(Piece { kind: PieceKind::King, color: Color::White }));
    board.set((4, 4), Some(Piece { kind: PieceKind::Rook, color: Color::White }));
    let game = Game { board, cur_en_passant: None, is_checked: false };
    assert!(!probe_safe_for(&game, (4, 4)));
}

#[test]
fn a_position_with_a_capturable_king_is_not_evaluable() {
    // After White's quiet pawn push, Black's rook could slide onto the
    // White king, so the resulting position cannot be searched safely.
    let mut board = Board::empty();
    board.set((0, 0), Some(Piece { kind: PieceKind::King, color: Color::Black }));
    board.set((7, 0), Some(Piece { kind: PieceKind::King, color: Color::White }));
    board.set((7, 7), Some(Piece { kind: PieceKind::Rook, color: Color::Black }));
    board.set((3, 6), Some(Piece { kind: PieceKind::Pawn, color: Color::White }));
    let game = Game { board, cur_en_passant: None, is_checked: false };
    assert!(!position_evaluable((3, 6), (3, 5), &game, Color::White));
}

#[test]
fn en_passant_falls_back_to_the_second_diagonal_at_the_edge() {
    // A white pawn on the a-file: its first diagonal leaves the board, so
    // the second one picks up the target.
    let mut board = Board::empty();
    board.set((0, 4), Some(Piece { kind: PieceKind::Pawn, color: Color::White }));
    board.set((1, 3), Some(Piece { kind: PieceKind::Pawn, color: Color::Black }));
    let game = Game { board, cur_en_passant: Some((1, 3)), is_checked: false };
    assert_eq!(get_moves((0, 4), &game), vec![(1, -1)]);
}

#[test]
fn filtering_under_check_keeps_only_probe_surviving_moves() {
    // Black king on the rook's file, flagged as checked: every candidate
    // is simulated, and a candidate survives only when the side opposing
    // the mover ends up out of check.
    let mut board = two_kings_board();
    board.set((4, 7), None);
    board.set((0, 7), Some(Piece { kind: PieceKind::King, color: Color::White }));
    board.set((4, 5), Some(Piece { kind: PieceKind::Rook, color: Color::White }));
    let game = Game { board, cur_en_passant: None, is_checked: true };
    assert!(probe_safe_for(&game, (4, 0)));
    let moves = get_moves((4, 0), &game);
    // the White king is never put in check by a lone Black king, so every
    // clipped king step survives the filter
    let mut want = vec![(-1, 0), (0, 1), (1, 0), (-1, 1), (1, 1)];
    let mut got = moves;
    want.sort();
    got.sort();
    assert_eq!(got, want);
}
