//! Check detection by reverse probing.
//!
//! To decide whether a king is attacked, the detector stands a probe piece
//! of each attacking kind on the king's own square and generates that
//! probe's pseudo-legal moves: if one of them reaches an opposing piece of
//! the probe's kind, an attacker of that kind reaches the king along the
//! same pattern.  The probe kinds are pawn, rook, bishop, knight and queen;
//! a king is never considered attacked by the opposing king.  Pawn attack
//! patterns are not reversible (pawns advance one way and capture the
//! other), so this technique does not see pawn-delivered check; that is a
//! documented limitation of the engine, not corrected here.

use vstd::prelude::*;

use crate::board::Board;
use crate::board::Color;
use crate::board::Location;
use crate::board::Piece;
use crate::board::PieceKind;
use crate::board::after_move;
use crate::board::board_ok;
use crate::board::on_board;
use crate::board::piece_on;
use crate::game::Game;
use crate::moves::pattern_moves;
use crate::moves::pseudo_legal;

verus! {

/// A king of color `c` stands on `(x, y)`.
pub open spec fn king_at(b: Seq<Option<Piece>>, c: Color, x: int, y: int) -> bool {
    on_board(x, y) && piece_on(b, x, y) == Some(Piece { kind: PieceKind::King, color: c })
}

/// Some king of color `c` is on the board.
pub open spec fn has_king(b: Seq<Option<Piece>>, c: Color) -> bool {
    exists|q: (int, int)| king_at(b, c, q.0, q.1)
}

/// Exactly one king of color `c` is on the board.
pub open spec fn one_king(b: Seq<Option<Piece>>, c: Color) -> bool {
    has_king(b, c) && forall|x1: int, y1: int, x2: int, y2: int|
        #[trigger] king_at(b, c, x1, y1) && #[trigger] king_at(b, c, x2, y2) ==> x1 == x2 && y1
            == y2
}

/// The square of the king of color `c` (meaningful under `one_king`).
pub open spec fn king_spot(b: Seq<Option<Piece>>, c: Color) -> (int, int) {
    choose|q: (int, int)| king_at(b, c, q.0, q.1)
}

/// The kinds tried as probes, in probing order.
pub open spec fn probe_kinds() -> Seq<PieceKind> {
    seq![
        PieceKind::Pawn,
        PieceKind::Rook,
        PieceKind::Bishop,
        PieceKind::Knight,
        PieceKind::Queen,
    ]
}

/// The board with a probe piece of `kind` and color `c` standing on `k`.
pub open spec fn probe_board(
    b: Seq<Option<Piece>>,
    k: (int, int),
    kind: PieceKind,
    c: Color,
) -> Seq<Option<Piece>> {
    b.update(k.1 * 8 + k.0, Some(Piece { kind, color: c }))
}

/// The probe's move `v` lands on an opposing piece of the probe's kind.
pub open spec fn probe_hit(
    pb: Seq<Option<Piece>>,
    k: (int, int),
    kind: PieceKind,
    c: Color,
    v: (i8, i8),
) -> bool {
    on_board(k.0 + v.0, k.1 + v.1) && match piece_on(pb, k.0 + v.0, k.1 + v.1) {
        Some(t) => t.kind == kind && t.color != c,
        None => false,
    }
}

/// A probe of `kind` finds an attacker of the king of color `c` by move `v`.
pub open spec fn probe_finds(
    b: Seq<Option<Piece>>,
    ep: Option<Location>,
    c: Color,
    kind: PieceKind,
    v: (i8, i8),
) -> bool {
    let k = king_spot(b, c);
    let pb = probe_board(b, k, kind, c);
    probe_kinds().contains(kind) && pseudo_legal(pb, ep, (k.0 as usize, k.1 as usize), v)
        && probe_hit(pb, k, kind, c, v)
}

/// The king of color `c` is under attack, as the reverse probes see it.
pub open spec fn in_check(b: Seq<Option<Piece>>, ep: Option<Location>, c: Color) -> bool {
    exists|kind: PieceKind, v: (i8, i8)| #[trigger] probe_finds(b, ep, c, kind, v)
}

/// Moving a piece that is not the king of color `c` to a square other than
/// that king's leaves exactly that king in place.
pub proof fn lemma_king_preserved(b: Seq<Option<Piece>>, from: Location, to: Location, c: Color)
    requires
        board_ok(b),
        on_board(from.0 as int, from.1 as int),
        on_board(to.0 as int, to.1 as int),
        one_king(b, c),
        piece_on(b, from.0 as int, from.1 as int) matches Some(p) && p.color != c,
        (to.0 as int, to.1 as int) != king_spot(b, c),
    ensures
        one_king(after_move(b, from, to), c),
        king_spot(after_move(b, from, to), c) == king_spot(b, c),
{
    let k = king_spot(b, c);
    let nb = after_move(b, from, to);
    assert(king_at(b, c, k.0, k.1));
    assert(k != (from.0 as int, from.1 as int));
    assert(piece_on(nb, k.0, k.1) == piece_on(b, k.0, k.1));
    assert(king_at(nb, c, k.0, k.1));
    assert forall|x: int, y: int| #[trigger] king_at(nb, c, x, y) implies x == k.0 && y == k.1 by {
        if !(x == to.0 && y == to.1) && !(x == from.0 && y == from.1) {
            assert(piece_on(nb, x, y) == piece_on(b, x, y));
            assert(king_at(b, c, x, y));
        }
    }
    assert(king_at(nb, c, king_spot(nb, c).0, king_spot(nb, c).1));
}

/// The square of the king of color `color`.  Scans the files left to
/// right, each file from Black's back rank down, and returns the first
/// king found; the board must hold one.
pub fn get_king_location(board: &Board, color: Color) -> (r: Location)
    requires
        board_ok(board@),
        has_king(board@, color),
    ensures
        king_at(board@, color, r.0 as int, r.1 as int),
{
    let mut i: usize = 0;
    while i < 8
        invariant
            board_ok(board@),
            has_king(board@, color),
            i <= 8,
            forall|x: int, y: int| 0 <= x < i && 0 <= y < 8 ==> !king_at(board@, color, x, y),
        decreases 8 - i,
    {
        let mut j: usize = 0;
        while j < 8
            invariant
                board_ok(board@),
                i < 8,
                j <= 8,
                forall|y: int| 0 <= y < j ==> !king_at(board@, color, i as int, y),
            decreases 8 - j,
        {
            match board.get((i, j)) {
                Some(p) => {
                    if p.kind == PieceKind::King && p.color == color {
                        return (i, j);
                    }
                },
                None => {},
            }
            j = j + 1;
        }
        i = i + 1;
    }
    proof {
        let q = choose|q: (int, int)| king_at(board@, color, q.0, q.1);
        assert(false);
    }
    (0, 0)
}

/// The square of the king of `color`, when the board holds exactly one
/// such king; nothing when it holds none or several.  A caller that must
/// not face a missing or ambiguous king tests with this first.
pub fn find_sole_king(board: &Board, color: Color) -> (r: Option<Location>)
    requires
        board_ok(board@),
    ensures
        r is Some <==> one_king(board@, color),
        r matches Some(k) ==> king_at(board@, color, k.0 as int, k.1 as int) && (
        k.0 as int,
        k.1 as int,
        ) == king_spot(board@, color),
{
    let mut found: Option<Location> = None;
    let mut x: usize = 0;
    while x < 8
        invariant
            board_ok(board@),
            x <= 8,
            match found {
                Some(k) => king_at(board@, color, k.0 as int, k.1 as int) && k.0 < x && k.1 < 8
                    && forall|x2: int, y2: int|
                    0 <= x2 < x && 0 <= y2 < 8 && !(x2 == k.0 && y2 == k.1) ==> !king_at(
                        board@,
                        color,
                        x2,
                        y2,
                    ),
                None => forall|x2: int, y2: int|
                    0 <= x2 < x && 0 <= y2 < 8 ==> !king_at(board@, color, x2, y2),
            },
        decreases 8 - x,
    {
        let mut y: usize = 0;
        while y < 8
            invariant
                board_ok(board@),
                x < 8,
                y <= 8,
                match found {
                    Some(k) => king_at(board@, color, k.0 as int, k.1 as int) && (k.0 < x || (k.0
                        == x && k.1 < y)) && k.1 < 8 && forall|x2: int, y2: int|
                        0 <= x2 < 8 && 0 <= y2 < 8 && (x2 < x || (x2 == x && y2 < y)) && !(x2
                            == k.0 && y2 == k.1) ==> !king_at(board@, color, x2, y2),
                    None => forall|x2: int, y2: int|
                        0 <= x2 < 8 && 0 <= y2 < 8 && (x2 < x || (x2 == x && y2 < y))
                            ==> !king_at(board@, color, x2, y2),
                },
            decreases 8 - y,
        {
            match board.get((x, y)) {
                Some(p) => {
                    if p.kind == PieceKind::King && p.color == color {
                        match found {
                            Some(k) => {
                                // a second king: uniqueness fails
                                proof {
                                    assert(king_at(board@, color, k.0 as int, k.1 as int));
                                    assert(king_at(board@, color, x as int, y as int));
                                }
                                return None;
                            },
                            None => {
                                found = Some((x, y));
                            },
                        }
                    }
                },
                None => {},
            }
            y = y + 1;
        }
        x = x + 1;
    }
    proof {
        match found {
            Some(k) => {
                assert(king_at(board@, color, k.0 as int, k.1 as int));
                assert(one_king(board@, color));
                assert(king_at(board@, color, king_spot(board@, color).0, king_spot(
                    board@,
                    color,
                ).1));
            },
            None => {
                if has_king(board@, color) {
                    let q = choose|q: (int, int)| king_at(board@, color, q.0, q.1);
                    assert(false);
                }
            },
        }
    }
    found
}

/// Whether the king of `color` is under attack in `game`'s position.
///
/// For each probe kind in order, the probe piece is stood on the king's
/// square of a scratch copy of the board and its pseudo-legal moves are
/// generated; a move landing on an opposing piece of the probe's kind
/// reports check.  The caller records the verdict in the checked flag;
/// this query does not write it back.
pub fn is_checked(game: &Game, color: Color) -> (r: bool)
    requires
        board_ok(game.board@),
        one_king(game.board@, color),
    ensures
        r == in_check(game.board@, game.cur_en_passant, color),
{
    let b = &game.board;
    let kloc = get_king_location(b, color);
    proof {
        assert(king_at(b@, color, king_spot(b@, color).0, king_spot(b@, color).1));
        assert((kloc.0 as int, kloc.1 as int) == king_spot(b@, color));
    }
    let kinds: Vec<PieceKind> = vec![
        PieceKind::Pawn,
        PieceKind::Rook,
        PieceKind::Bishop,
        PieceKind::Knight,
        PieceKind::Queen,
    ];
    proof {
        assert(kinds@ =~= probe_kinds());
    }
    let mut ki: usize = 0;
    while ki < kinds.len()
        invariant
            board_ok(game.board@),
            one_king(game.board@, color),
            kinds@ == probe_kinds(),
            ki <= kinds@.len(),
            king_at(game.board@, color, kloc.0 as int, kloc.1 as int),
            (kloc.0 as int, kloc.1 as int) == king_spot(game.board@, color),
            forall|kind: PieceKind, v: (i8, i8)|
                (exists|j: int| 0 <= j < ki && kinds@[j] == kind) ==> !probe_finds(
                    game.board@,
                    game.cur_en_passant,
                    color,
                    kind,
                    v,
                ),
        decreases kinds@.len() - ki,
    {
        let kind = kinds[ki];
        let mut pb = game.board.copied();
        pb.set(kloc, Some(Piece { kind, color }));
        proof {
            assert(pb@ == probe_board(
                game.board@,
                (kloc.0 as int, kloc.1 as int),
                kind,
                color,
            ));
        }
        let mvs = pattern_moves(&pb, game.cur_en_passant, kloc);
        let mut mi: usize = 0;
        while mi < mvs.len()
            invariant
                board_ok(pb@),
                mi <= mvs@.len(),
                on_board(kloc.0 as int, kloc.1 as int),
                forall|j: int| 0 <= j < mi ==> !probe_hit(
                    pb@,
                    (kloc.0 as int, kloc.1 as int),
                    kind,
                    color,
                    mvs@[j],
                ),
                forall|v: (i8, i8)| #[trigger] mvs@.contains(v) <==> pseudo_legal(
                    pb@,
                    game.cur_en_passant,
                    kloc,
                    v,
                ),
                pb@ == probe_board(game.board@, (kloc.0 as int, kloc.1 as int), kind, color),
                (kloc.0 as int, kloc.1 as int) == king_spot(game.board@, color),
                kinds@ == probe_kinds(),
                0 <= ki < kinds@.len(),
                kind == kinds@[ki as int],
            decreases mvs@.len() - mi,
        {
            let v = mvs[mi];
            let nx: i16 = kloc.0 as i16 + v.0 as i16;
            let ny: i16 = kloc.1 as i16 + v.1 as i16;
            if nx >= 0 && nx <= 7 && ny >= 0 && ny <= 7 {
                match pb.get((nx as usize, ny as usize)) {
                    Some(t) => {
                        if t.kind == kind && t.color != color {
                            proof {
                                assert(mvs@.contains(mvs@[mi as int]));
                                assert(kinds@[ki as int] == kind);
                                assert(probe_kinds().contains(kind));
                                let k = king_spot(game.board@, color);
                                assert(((k.0 as usize), (k.1 as usize)) == kloc);
                                assert(pseudo_legal(pb@, game.cur_en_passant, kloc, v));
                                assert(on_board(k.0 + v.0, k.1 + v.1));
                                assert(piece_on(pb@, k.0 + v.0, k.1 + v.1) == Some(t));
                                assert(probe_finds(
                                    game.board@,
                                    game.cur_en_passant,
                                    color,
                                    kind,
                                    v,
                                ));
                            }
                            return true;
                        }
                    },
                    None => {},
                }
            }
            mi = mi + 1;
        }
        proof {
            assert forall|v: (i8, i8)| !probe_finds(
                game.board@,
                game.cur_en_passant,
                color,
                kinds@[ki as int],
                v,
            ) by {
                if pseudo_legal(pb@, game.cur_en_passant, kloc, v) {
                    assert(mvs@.contains(v));
                    let j = choose|j: int| 0 <= j < mvs@.len() && mvs@[j] == v;
                    assert(!probe_hit(pb@, (kloc.0 as int, kloc.1 as int), kind, color, mvs@[j]));
                }
            }
            assert forall|kind2: PieceKind, v: (i8, i8)|
                (exists|j: int| 0 <= j < ki + 1 && kinds@[j] == kind2) implies !probe_finds(
                game.board@,
                game.cur_en_passant,
                color,
                kind2,
                v,
            ) by {
                let j = choose|j: int| 0 <= j < ki + 1 && kinds@[j] == kind2;
                if j < ki {
                    assert(exists|j2: int| 0 <= j2 < ki && kinds@[j2] == kind2);
                }
            }
        }
        ki = ki + 1;
    }
    proof {
        assert forall|kind: PieceKind, v: (i8, i8)| !#[trigger] probe_finds(
            game.board@,
            game.cur_en_passant,
            color,
            kind,
            v,
        ) by {
            if probe_kinds().contains(kind) {
                let j = choose|j: int| 0 <= j < probe_kinds().len() && probe_kinds()[j] == kind;
                assert(exists|j2: int| 0 <= j2 < 5 && kinds@[j2] == kind);
            }
        }
    }
    false
}

} // verus!
