use chess::board::Color;
use chess::board::Piece;
use chess::board::PieceKind;
use chess::moves::dist;
use chess::moves::is_out_of_bounds;
use chess::notation::debugloc2move;
use chess::notation::loc2move;
use chess::notation::move2loc;

#[test]
fn algebraic_text_maps_to_grid_coordinates() {
    assert_eq!(move2loc("e2"), (4, 6));
    assert_eq!(move2loc("a8"), (0, 0));
    assert_eq!(move2loc("h1"), (7, 7));
    assert_eq!(move2loc("d5"), (3, 3));
    // off-board input comes out off-board and is caught by bounds checks
    assert_eq!(move2loc("i9"), (8, -1));
    assert!(is_out_of_bounds(move2loc("i9")));
}

#[test]
fn grid_coordinates_map_back_to_algebraic_text() {
    assert_eq!(loc2move((4, 6)), "e2");
    assert_eq!(loc2move((0, 0)), "a8");
    assert_eq!(loc2move((7, 7)), "h1");
}

#[test]
fn off_board_squares_still_have_a_debug_name() {
    assert_eq!(debugloc2move((8, -1)), "i9");
    assert_eq!(debugloc2move((4, 6)), "e2");
    assert_eq!(debugloc2move((0, 8)), "a0");
    assert_eq!(debugloc2move((-1, 9)), "`-1");
}

#[test]
fn bounds_are_the_eight_by_eight_board() {
    assert!(!is_out_of_bounds((0, 0)));
    assert!(!is_out_of_bounds((7, 7)));
    assert!(is_out_of_bounds((-1, 0)));
    assert!(is_out_of_bounds((0, -1)));
    assert!(is_out_of_bounds((8, 0)));
    assert!(is_out_of_bounds((0, 8)));
}

#[test]
fn taxicab_distance_adds_both_axes() {
    assert_eq!(dist((4, 6), (4, 4)), 2);
    assert_eq!(dist((4, 4), (3, 3)), 2);
    assert_eq!(dist((0, 0), (7, 7)), 14);
    assert_eq!(dist((3, 3), (3, 3)), 0);
}

#[test]
fn colors_wrap_text_in_ansi_escapes() {
    assert_eq!(Color::White.color("K"), "\x1b[37;1mK\x1b[0m");
    assert_eq!(Color::Black.color("P"), "\x1b[30;1mP\x1b[0m");
    assert_eq!(Color::White.to_string(), "White");
    assert_eq!(Color::Black.to_string(), "Black");
}

#[test]
fn pieces_print_as_colored_glyphs() {
    assert_eq!(PieceKind::Knight.to_string(), "N");
    assert_eq!(PieceKind::Queen.to_string(), "Q");
    let p = Piece { kind: PieceKind::King, color: Color::White };
    assert_eq!(p.to_string(), "\x1b[37;1mK\x1b[0m");
}
