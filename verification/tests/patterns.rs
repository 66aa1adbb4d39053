use chess::board::Board;
use chess::board::Color;
use chess::board::Piece;
use chess::board::PieceKind;
use chess::game::Game;
use chess::rules::get_moves;
use chess::rules::legal_moves;

fn lone_piece_game(kind: PieceKind, color: Color, loc: (usize, usize)) -> Game {
    let mut board = Board::empty();
    board.set(loc, Some(Piece { kind, color }));
    Game { board, cur_en_passant: None, is_checked: false }
}

fn assert_same_moves(mut got: Vec<(i8, i8)>, mut want: Vec<(i8, i8)>) {
    got.sort();
    want.sort();
    assert_eq!(got, want);
}

#[test]
fn bishop_on_d4_runs_all_four_diagonals() {
    // d4 is file 3, rank 4; an unobstructed bishop reaches the edge on
    // every diagonal: 13 squares in all.
    let game = lone_piece_game(PieceKind::Bishop, Color::White, (3, 4));
    let got = get_moves((3, 4), &game);
    let want = vec![
        (-1, -1),
        (-2, -2),
        (-3, -3),
        (1, -1),
        (2, -2),
        (3, -3),
        (4, -4),
        (1, 1),
        (2, 2),
        (3, 3),
        (-1, 1),
        (-2, 2),
        (-3, 3),
    ];
    assert_eq!(got.len(), 13);
    assert_same_moves(got, want);
}

#[test]
fn rook_in_center_runs_both_lines() {
    let game = lone_piece_game(PieceKind::Rook, Color::Black, (3, 4));
    let got = get_moves((3, 4), &game);
    let want = vec![
        (-1, 0),
        (-2, 0),
        (-3, 0),
        (1, 0),
        (2, 0),
        (3, 0),
        (4, 0),
        (0, -1),
        (0, -2),
        (0, -3),
        (0, -4),
        (0, 1),
        (0, 2),
        (0, 3),
    ];
    assert_same_moves(got, want);
}

#[test]
fn queen_in_center_unions_rook_and_bishop() {
    let game = lone_piece_game(PieceKind::Queen, Color::White, (3, 4));
    let got = get_moves((3, 4), &game);
    assert_eq!(got.len(), 27);
}

#[test]
fn knight_away_from_edges_has_all_eight_leaps() {
    let game = lone_piece_game(PieceKind::Knight, Color::White, (3, 3));
    let got = get_moves((3, 3), &game);
    let want = vec![(-1, -2), (1, -2), (2, -1), (2, 1), (1, 2), (-1, 2), (-2, 1), (-2, -1)];
    assert_same_moves(got, want);
}

#[test]
fn king_away_from_edges_has_all_eight_steps() {
    let game = lone_piece_game(PieceKind::King, Color::Black, (4, 4));
    let got = get_moves((4, 4), &game);
    let want = vec![(-1, 0), (-1, -1), (0, -1), (1, -1), (1, 0), (1, 1), (0, 1), (-1, 1)];
    assert_same_moves(got, want);
}

#[test]
fn knight_in_corner_is_clipped() {
    let game = lone_piece_game(PieceKind::Knight, Color::White, (0, 0));
    let got = get_moves((0, 0), &game);
    let want = vec![(2, 1), (1, 2)];
    assert_same_moves(got, want);
}

#[test]
fn black_pawn_on_home_rank_steps_one_or_two() {
    let game = lone_piece_game(PieceKind::Pawn, Color::Black, (4, 1));
    assert_same_moves(get_moves((4, 1), &game), vec![(0, 1), (0, 2)]);
}

#[test]
fn white_pawn_on_home_rank_steps_one_or_two() {
    let game = lone_piece_game(PieceKind::Pawn, Color::White, (4, 6));
    assert_same_moves(get_moves((4, 6), &game), vec![(0, -1), (0, -2)]);
}

#[test]
fn pawn_off_home_rank_steps_one() {
    let game = lone_piece_game(PieceKind::Pawn, Color::White, (4, 4));
    assert_same_moves(get_moves((4, 4), &game), vec![(0, -1)]);
    let game = lone_piece_game(PieceKind::Pawn, Color::Black, (2, 3));
    assert_same_moves(get_moves((2, 3), &game), vec![(0, 1)]);
}

#[test]
fn sliders_stop_at_the_first_piece_and_capture_only_enemies() {
    let mut board = Board::empty();
    board.set((3, 4), Some(Piece { kind: PieceKind::Rook, color: Color::White }));
    // an enemy pawn two squares to the right: its square is included
    board.set((5, 4), Some(Piece { kind: PieceKind::Pawn, color: Color::Black }));
    // an own pawn right above: its square is excluded
    board.set((3, 3), Some(Piece { kind: PieceKind::Pawn, color: Color::White }));
    let game = Game { board, cur_en_passant: None, is_checked: false };
    let got = get_moves((3, 4), &game);
    let want = vec![(-1, 0), (-2, 0), (-3, 0), (1, 0), (2, 0), (0, 1), (0, 2), (0, 3)];
    assert_same_moves(got, want);
}

#[test]
fn legal_moves_matches_get_moves() {
    let game = lone_piece_game(PieceKind::Bishop, Color::White, (3, 4));
    let mut a = legal_moves((3, 4), &game);
    let mut b = get_moves((3, 4), &game);
    a.sort();
    b.sort();
    assert_eq!(a, b);
}
