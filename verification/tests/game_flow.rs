use chess::board::Board;
use chess::board::Color;
use chess::board::Piece;
use chess::board::PieceKind;
use chess::game::apply_move;
use chess::game::Game;
use chess::game::MoveError;
use chess::game::Status;
use chess::rules::get_moves;

#[test]
fn starting_position_is_the_standard_layout() {
    let game = Game::new();
    assert_eq!(
        game.board.get((0, 0)),
        Some(Piece { kind: PieceKind::Rook, color: Color::Black })
    );
    assert_eq!(
        game.board.get((4, 0)),
        Some(Piece { kind: PieceKind::King, color: Color::Black })
    );
    assert_eq!(
        game.board.get((3, 7)),
        Some(Piece { kind: PieceKind::Queen, color: Color::White })
    );
    for x in 0..8 {
        assert_eq!(
            game.board.get((x, 1)),
            Some(Piece { kind: PieceKind::Pawn, color: Color::Black })
        );
        assert_eq!(
            game.board.get((x, 6)),
            Some(Piece { kind: PieceKind::Pawn, color: Color::White })
        );
        for y in 2..6 {
            assert_eq!(game.board.get((x, y)), None);
        }
    }
    assert_eq!(game.cur_en_passant, None);
    assert!(!game.is_checked);
}

#[test]
fn opening_double_steps_alternate_without_check() {
    // White plays e2 -> e4 (vector (0,-2) from e2), Black answers e7 -> e5.
    let game = Game::new();
    let (game, st) = apply_move((4, 6), (4, 4), &game, Color::White).unwrap();
    assert_eq!(st, Status::AwaitingMove);
    assert_eq!(game.cur_en_passant, Some((4, 4)));
    assert!(!game.is_checked);
    let (game, st) = apply_move((4, 1), (4, 3), &game, Color::Black).unwrap();
    assert_eq!(st, Status::AwaitingMove);
    assert_eq!(game.cur_en_passant, Some((4, 3)));
    assert!(!game.is_checked);
    assert_eq!(
        game.board.get((4, 4)),
        Some(Piece { kind: PieceKind::Pawn, color: Color::White })
    );
    assert_eq!(
        game.board.get((4, 3)),
        Some(Piece { kind: PieceKind::Pawn, color: Color::Black })
    );
    assert_eq!(game.board.get((4, 6)), None);
    assert_eq!(game.board.get((4, 1)), None);
}

#[test]
fn destination_is_occupied_right_after_a_move() {
    // Querying moves from the destination right after a move never hits
    // the empty-square precondition: the moved piece stands there.
    let game = Game::new();
    let (game, _) = apply_move((4, 6), (4, 4), &game, Color::White).unwrap();
    assert_eq!(
        game.board.get((4, 4)),
        Some(Piece { kind: PieceKind::Pawn, color: Color::White })
    );
    let moves = get_moves((4, 4), &game);
    assert_eq!(moves, vec![(0, -1)]);
}

#[test]
fn en_passant_target_is_cleared_by_a_plain_move() {
    let game = Game::new();
    let (game, _) = apply_move((4, 6), (4, 4), &game, Color::White).unwrap();
    assert_eq!(game.cur_en_passant, Some((4, 4)));
    // Black moves a knight: no pawn double step, so the target is gone.
    let (game, _) = apply_move((1, 0), (2, 2), &game, Color::Black).unwrap();
    assert_eq!(game.cur_en_passant, None);
}

#[test]
fn moving_from_an_empty_square_is_rejected() {
    let game = Game::new();
    assert_eq!(
        apply_move((4, 4), (4, 3), &game, Color::White).unwrap_err(),
        MoveError::EmptySquare
    );
}

#[test]
fn moving_the_opponents_piece_is_rejected() {
    let game = Game::new();
    assert_eq!(
        apply_move((4, 1), (4, 3), &game, Color::White).unwrap_err(),
        MoveError::WrongColor
    );
}

#[test]
fn moving_onto_an_own_piece_is_rejected() {
    let game = Game::new();
    assert_eq!(
        apply_move((0, 7), (0, 6), &game, Color::White).unwrap_err(),
        MoveError::DestinationOccupied
    );
}

#[test]
fn a_move_outside_the_move_set_is_rejected() {
    let game = Game::new();
    assert_eq!(
        apply_move((4, 6), (4, 3), &game, Color::White).unwrap_err(),
        MoveError::NotInMoveSet
    );
}

#[test]
fn rejected_moves_are_rejected_by_is_valid_move_too() {
    // Exhaustively over the starting position: whatever is not in the
    // move set is turned down.
    let game = Game::new();
    for fx in 0..8usize {
        for fy in 0..8usize {
            let piece = match game.board.get((fx, fy)) {
                Some(p) => p,
                None => continue,
            };
            let moves = get_moves((fx, fy), &game);
            for tx in 0..8usize {
                for ty in 0..8usize {
                    let diff = (tx as i8 - fx as i8, ty as i8 - fy as i8);
                    if !moves.contains(&diff) {
                        assert!(!piece.is_valid_move((fx, fy), (tx, ty), &game));
                    }
                }
            }
        }
    }
}

#[test]
fn listed_moves_pass_is_valid_move() {
    let game = Game::new();
    let pawn = game.board.get((4, 6)).unwrap();
    assert!(pawn.is_valid_move((4, 6), (4, 5), &game));
    assert!(pawn.is_valid_move((4, 6), (4, 4), &game));
    let knight = game.board.get((6, 7)).unwrap();
    assert!(knight.is_valid_move((6, 7), (5, 5), &game));
    assert!(!knight.is_valid_move((6, 7), (4, 6), &game));
}

#[test]
fn capturing_the_king_wins_at_once() {
    let mut board = Board::empty();
    board.set((4, 0), Some(Piece { kind: PieceKind::King, color: Color::Black }));
    board.set((4, 1), Some(Piece { kind: PieceKind::Rook, color: Color::White }));
    board.set((0, 7), Some(Piece { kind: PieceKind::King, color: Color::White }));
    let game = Game { board, cur_en_passant: None, is_checked: false };
    let (game, st) = apply_move((4, 1), (4, 0), &game, Color::White).unwrap();
    assert_eq!(st, Status::Won(Color::White));
    assert_eq!(
        game.board.get((4, 0)),
        Some(Piece { kind: PieceKind::Rook, color: Color::White })
    );
    assert!(!game.is_checked);
}

#[test]
fn a_rook_attack_with_an_escape_gives_check_not_checkmate() {
    // A White rook slides over to the Black king's file with no blockers;
    // Black can still step aside, so the state is InCheck.
    let mut board = Board::empty();
    board.set((4, 0), Some(Piece { kind: PieceKind::King, color: Color::Black }));
    board.set((0, 7), Some(Piece { kind: PieceKind::King, color: Color::White }));
    board.set((0, 4), Some(Piece { kind: PieceKind::Rook, color: Color::White }));
    let game = Game { board, cur_en_passant: None, is_checked: false };
    let (game, st) = apply_move((0, 4), (4, 4), &game, Color::White).unwrap();
    assert_eq!(st, Status::InCheck(Color::Black));
    assert!(game.is_checked);
}
