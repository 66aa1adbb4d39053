//! Engine-wide properties, stated and proved once.
//!
//! Each proof function here records a fact that relates several parts of
//! the engine; the function contracts alone imply them, but they are laws
//! of the engine worth stating in their own right.

use vstd::prelude::*;

use crate::board::Color;
use crate::board::Location;
use crate::board::Piece;
use crate::board::PieceKind;
use crate::board::after_move;
use crate::board::board_ok;
use crate::board::on_board;
use crate::board::opposite;
use crate::board::piece_on;
use crate::check::in_check;
use crate::check::king_at;
use crate::check::king_spot;
use crate::check::one_king;
use crate::check::probe_board;
use crate::check::probe_finds;
use crate::check::probe_hit;
use crate::check::probe_kinds;
use crate::game::Game;
use crate::game::next_en_passant;
use crate::moves::diag_shape;
use crate::moves::absd;
use crate::moves::ep_match;
use crate::moves::forward;
use crate::moves::home_rank;
use crate::moves::king_deltas;
use crate::moves::knight_deltas;
use crate::moves::ortho_shape;
use crate::moves::pawn_diag_first;
use crate::moves::pawn_diag_second;
use crate::moves::pseudo_legal;
use crate::moves::ray_x;
use crate::moves::ray_y;
use crate::moves::steps;
use crate::rules::move_allowed;
use crate::rules::valid_move;

verus! {

/// No movement pattern yields the zero displacement: a piece never
/// "moves" to its own square.
pub proof fn lemma_moves_are_nonzero(
    b: Seq<Option<Piece>>,
    ep: Option<Location>,
    loc: Location,
    v: (i8, i8),
)
    requires
        pseudo_legal(b, ep, loc, v),
    ensures
        !(v.0 == 0 && v.1 == 0),
{
    if v.0 == 0 && v.1 == 0 {
        match piece_on(b, loc.0 as int, loc.1 as int) {
            Some(p) => {
                match p.kind {
                    PieceKind::Knight => {
                        let j = choose|j: int|
                            0 <= j < knight_deltas().len() && knight_deltas()[j] == v;
                    },
                    PieceKind::King => {
                        let j = choose|j: int| 0 <= j < king_deltas().len() && king_deltas()[j] == v;
                    },
                    _ => {},
                }
            },
            None => {},
        }
    }
}

/// After a move that passed validation, the destination square holds
/// exactly the moved piece, so querying moves from it cannot violate the
/// occupancy precondition; the source square is cleared.
pub proof fn lemma_destination_holds_moved_piece(
    b: Seq<Option<Piece>>,
    ep: Option<Location>,
    checked: bool,
    from: Location,
    to: Location,
)
    requires
        board_ok(b),
        on_board(from.0 as int, from.1 as int),
        on_board(to.0 as int, to.1 as int),
        valid_move(b, ep, checked, from, to),
    ensures
        piece_on(after_move(b, from, to), to.0 as int, to.1 as int) == piece_on(
            b,
            from.0 as int,
            from.1 as int,
        ),
        piece_on(after_move(b, from, to), to.0 as int, to.1 as int) is Some,
        piece_on(after_move(b, from, to), from.0 as int, from.1 as int) is None,
{
    let v = (((to.0 - from.0) as i8), ((to.1 - from.1) as i8));
    lemma_moves_are_nonzero(b, ep, from, v);
}

/// A displacement absent from the move set is always rejected: a move
/// passes validation only if `to - from` is in the move set of `from`.
pub proof fn lemma_unlisted_move_rejected(
    b: Seq<Option<Piece>>,
    ep: Option<Location>,
    checked: bool,
    from: Location,
    to: Location,
)
    requires
        !move_allowed(b, ep, checked, from, (((to.0 - from.0) as i8), ((to.1 - from.1) as i8))),
    ensures
        !valid_move(b, ep, checked, from, to),
{
}

/// Off its home rank, a pawn with a matching en-passant target has
/// exactly one move: the diagonal toward that target, the first-probed
/// diagonal winning when both could match.
pub proof fn lemma_en_passant_single_move(
    b: Seq<Option<Piece>>,
    ep: Option<Location>,
    loc: Location,
    c: Color,
    v: (i8, i8),
)
    requires
        piece_on(b, loc.0 as int, loc.1 as int) == Some(Piece { kind: PieceKind::Pawn, color: c }),
        loc.1 != home_rank(c),
        ep_match(ep, loc, pawn_diag_first(c)) || ep_match(ep, loc, pawn_diag_second(c)),
    ensures
        pseudo_legal(b, ep, loc, v) <==> (if ep_match(ep, loc, pawn_diag_first(c)) {
            v.0 == pawn_diag_first(c).0 && v.1 == pawn_diag_first(c).1
        } else {
            v.0 == pawn_diag_second(c).0 && v.1 == pawn_diag_second(c).1
        }),
{
}

/// Every square the ray of `v` passes over, endpoint included, is on the
/// board.
pub open spec fn ray_on_board(loc: Location, v: (i8, i8)) -> bool {
    forall|j: int|
        1 <= j <= steps(v) ==> on_board(#[trigger] ray_x(loc, v, j), #[trigger] ray_y(loc, v, j))
}

/// The canonical pattern of a piece on an otherwise empty board: the full
/// movement pattern of its kind, clipped only by the board edge.
pub open spec fn unobstructed_pattern(k: PieceKind, c: Color, loc: Location, v: (i8, i8)) -> bool {
    match k {
        PieceKind::Pawn => if loc.1 == home_rank(c) {
            v.0 == 0 && (v.1 == forward(c) || v.1 == 2 * forward(c))
        } else {
            v.0 == 0 && v.1 == forward(c)
        },
        PieceKind::Knight => knight_deltas().contains(v) && on_board(loc.0 + v.0, loc.1 + v.1),
        PieceKind::King => king_deltas().contains(v) && on_board(loc.0 + v.0, loc.1 + v.1),
        PieceKind::Bishop => diag_shape(v) && ray_on_board(loc, v),
        PieceKind::Rook => ortho_shape(v) && ray_on_board(loc, v),
        PieceKind::Queen => (diag_shape(v) || ortho_shape(v)) && ray_on_board(loc, v),
    }
}

/// On an otherwise empty board with no en-passant target, a piece's move
/// set is exactly the canonical unobstructed pattern of its kind.
pub proof fn lemma_lone_piece_full_pattern(g: Game, loc: Location, v: (i8, i8))
    requires
        board_ok(g.board@),
        on_board(loc.0 as int, loc.1 as int),
        g.board@[loc.1 * 8 + loc.0] is Some,
        forall|x: int, y: int|
            on_board(x, y) && !(x == loc.0 && y == loc.1) ==> #[trigger] piece_on(
                g.board@,
                x,
                y,
            ) is None,
        g.cur_en_passant is None,
        g.is_checked == false,
    ensures
        move_allowed(g.board@, g.cur_en_passant, g.is_checked, loc, v) <==> unobstructed_pattern(
            piece_on(g.board@, loc.0 as int, loc.1 as int)->Some_0.kind,
            piece_on(g.board@, loc.0 as int, loc.1 as int)->Some_0.color,
            loc,
            v,
        ),
{
    let b = g.board@;
    let p = piece_on(b, loc.0 as int, loc.1 as int)->Some_0;
    match p.kind {
        PieceKind::Knight | PieceKind::King => {
            if knight_deltas().contains(v) || king_deltas().contains(v) {
                lemma_moves_are_nonzero_shape(v);
                if on_board(loc.0 + v.0, loc.1 + v.1) {
                    assert(!(loc.0 + v.0 == loc.0 && loc.1 + v.1 == loc.1));
                    assert(piece_on(b, loc.0 + v.0, loc.1 + v.1) is None);
                }
            }
        },
        PieceKind::Bishop | PieceKind::Rook | PieceKind::Queen => {
            if (diag_shape(v) || ortho_shape(v)) && ray_on_board(loc, v) {
                lemma_ray_endpoint(loc, v);
                // every passed square differs from `loc`, so it is empty
                assert forall|j: int| 1 <= j < steps(v) implies on_board(
                    #[trigger] ray_x(loc, v, j),
                    #[trigger] ray_y(loc, v, j),
                ) && piece_on(b, ray_x(loc, v, j), ray_y(loc, v, j)) is None by {
                    lemma_ray_off_origin(loc, v, j);
                }
                assert(on_board(ray_x(loc, v, steps(v)), ray_y(loc, v, steps(v))));
                lemma_ray_off_origin(loc, v, steps(v));
                assert(piece_on(b, loc.0 + v.0, loc.1 + v.1) is None);
            }
            if pseudo_legal(b, g.cur_en_passant, loc, v) {
                lemma_ray_endpoint(loc, v);
                assert forall|j: int| 1 <= j <= steps(v) implies on_board(
                    #[trigger] ray_x(loc, v, j),
                    #[trigger] ray_y(loc, v, j),
                ) by {
                    if j == steps(v) {
                        assert(on_board(loc.0 + v.0, loc.1 + v.1));
                    }
                }
            }
        },
        PieceKind::Pawn => {},
    }
}

/// A nonzero displacement found in the knight or king offsets.
proof fn lemma_moves_are_nonzero_shape(v: (i8, i8))
    requires
        knight_deltas().contains(v) || king_deltas().contains(v),
    ensures
        !(v.0 == 0 && v.1 == 0),
{
    if knight_deltas().contains(v) {
        let j = choose|j: int| 0 <= j < knight_deltas().len() && knight_deltas()[j] == v;
    }
    if king_deltas().contains(v) {
        let j = choose|j: int| 0 <= j < king_deltas().len() && king_deltas()[j] == v;
    }
}

/// The ray of `v` ends on `loc + v`.
proof fn lemma_ray_endpoint(loc: Location, v: (i8, i8))
    requires
        diag_shape(v) || ortho_shape(v),
    ensures
        ray_x(loc, v, steps(v)) == loc.0 + v.0,
        ray_y(loc, v, steps(v)) == loc.1 + v.1,
{
}

/// No step of a diagonal or orthogonal ray returns to its origin.
proof fn lemma_ray_off_origin(loc: Location, v: (i8, i8), j: int)
    requires
        diag_shape(v) || ortho_shape(v),
        1 <= j <= steps(v),
    ensures
        !(ray_x(loc, v, j) == loc.0 && ray_y(loc, v, j) == loc.1),
{
}

/// A pawn's double step arms the en-passant target at its destination,
/// and an opposing pawn whose forward diagonal reaches that destination
/// then has that diagonal as its single move.
pub proof fn lemma_double_step_arms_en_passant(
    b: Seq<Option<Piece>>,
    from: Location,
    to: Location,
    mover: Color,
    pawn_loc: Location,
    v: (i8, i8),
)
    requires
        board_ok(b),
        on_board(from.0 as int, from.1 as int),
        on_board(to.0 as int, to.1 as int),
        piece_on(b, from.0 as int, from.1 as int) == Some(
            Piece { kind: PieceKind::Pawn, color: mover },
        ),
        from.0 == to.0,
        absd(from.1 as int, to.1 as int) == 2,
        on_board(pawn_loc.0 as int, pawn_loc.1 as int),
        pawn_loc != from && pawn_loc != to,
        piece_on(b, pawn_loc.0 as int, pawn_loc.1 as int) == Some(
            Piece { kind: PieceKind::Pawn, color: opposite(mover) },
        ),
        pawn_loc.1 != home_rank(opposite(mover)),
        ({
            let d = pawn_diag_first(opposite(mover));
            let e = pawn_diag_second(opposite(mover));
            (pawn_loc.0 + d.0 == to.0 && pawn_loc.1 + d.1 == to.1) || (pawn_loc.0 + e.0 == to.0
                && pawn_loc.1 + e.1 == to.1)
        }),
    ensures
        next_en_passant(b, from, to) == Some(to),
        pseudo_legal(after_move(b, from, to), next_en_passant(b, from, to), pawn_loc, v)
            <==> (if ep_match(Some(to), pawn_loc, pawn_diag_first(opposite(mover))) {
            v.0 == pawn_diag_first(opposite(mover)).0 && v.1 == pawn_diag_first(opposite(mover)).1
        } else {
            v.0 == pawn_diag_second(opposite(mover)).0 && v.1 == pawn_diag_second(
                opposite(mover),
            ).1
        }),
{
    let nb = after_move(b, from, to);
    let opp = opposite(mover);
    assert(piece_on(nb, pawn_loc.0 as int, pawn_loc.1 as int) == piece_on(
        b,
        pawn_loc.0 as int,
        pawn_loc.1 as int,
    ));
    lemma_en_passant_single_move(nb, Some(to), pawn_loc, opp, v);
}

/// The en-passant target of a completed move is gone unless that move was
/// itself a pawn moved over a taxicab distance of two: eligibility lives
/// for exactly one ply.
pub proof fn lemma_en_passant_lives_one_ply(b: Seq<Option<Piece>>, from: Location, to: Location)
    requires
        !((piece_on(b, from.0 as int, from.1 as int) matches Some(p) && p.kind == PieceKind::Pawn)
            && absd(from.0 as int, to.0 as int) + absd(from.1 as int, to.1 as int) == 2),
    ensures
        next_en_passant(b, from, to) is None,
{
}

/// An opposing rook on the king's file with nothing in between always
/// yields check: the rook probe from the king's square reaches it.
pub proof fn lemma_rook_on_file_gives_check(
    b: Seq<Option<Piece>>,
    ep: Option<Location>,
    c: Color,
    kx: int,
    ky: int,
    ry: int,
)
    requires
        board_ok(b),
        one_king(b, c),
        king_at(b, c, kx, ky),
        0 <= ry < 8,
        ry != ky,
        piece_on(b, kx, ry) == Some(Piece { kind: PieceKind::Rook, color: opposite(c) }),
        forall|y: int|
            (if ky < ry {
                ky < y < ry
            } else {
                ry < y < ky
            }) ==> #[trigger] piece_on(b, kx, y) is None,
    ensures
        in_check(b, ep, c),
{
    let k = king_spot(b, c);
    assert(king_at(b, c, k.0, k.1));
    assert(k == (kx, ky));
    let dy: i8 = (ry - ky) as i8;
    let v = (0i8, dy);
    let kind = PieceKind::Rook;
    let pb = probe_board(b, k, kind, c);
    let kl: Location = ((kx as usize), (ky as usize));
    assert(piece_on(pb, kx, ky) == Some(Piece { kind, color: c }));
    assert(steps(v) == if ry > ky {
        ry - ky
    } else {
        ky - ry
    });
    assert(ortho_shape(v));
    assert forall|j: int| 1 <= j < steps(v) implies on_board(
        #[trigger] ray_x(kl, v, j),
        #[trigger] ray_y(kl, v, j),
    ) && piece_on(pb, ray_x(kl, v, j), ray_y(kl, v, j)) is None by {
        assert(ray_x(kl, v, j) == kx);
        let y = ray_y(kl, v, j);
        assert(if ky < ry {
            ky < y < ry
        } else {
            ry < y < ky
        });
        assert(piece_on(b, kx, y) is None);
        assert(y != ky);
        assert(piece_on(pb, kx, y) == piece_on(b, kx, y));
    }
    assert(ray_y(kl, v, steps(v)) == ry);
    assert(piece_on(pb, kx, ry) == piece_on(b, kx, ry));
    assert(pseudo_legal(pb, ep, kl, v));
    assert(probe_kinds()[1] == kind);
    assert(probe_kinds().contains(kind));
    assert(probe_hit(pb, k, kind, c, v));
    assert(probe_finds(b, ep, c, kind, v));
}

/// On a board holding nothing but kings, no side is in check: the probe
/// kinds never include the king, so no probe can hit anything.
pub proof fn lemma_bare_kings_no_check(b: Seq<Option<Piece>>, ep: Option<Location>, c: Color)
    requires
        board_ok(b),
        one_king(b, c),
        forall|x: int, y: int|
            on_board(x, y) && #[trigger] piece_on(b, x, y) is Some ==> piece_on(
                b,
                x,
                y,
            )->Some_0.kind == PieceKind::King,
    ensures
        !in_check(b, ep, c),
{
    let k = king_spot(b, c);
    assert(king_at(b, c, k.0, k.1));
    if in_check(b, ep, c) {
        let (kind, v) = choose|kind: PieceKind, v: (i8, i8)| probe_finds(b, ep, c, kind, v);
        let pb = probe_board(b, k, kind, c);
        let tx = k.0 + v.0;
        let ty = k.1 + v.1;
        let j = choose|j: int| 0 <= j < probe_kinds().len() && probe_kinds()[j] == kind;
        assert(kind != PieceKind::King);
        if (tx, ty) == k {
            assert(piece_on(pb, tx, ty) == Some(Piece { kind, color: c }));
            assert(!probe_hit(pb, k, kind, c, v));
        } else {
            assert(piece_on(pb, tx, ty) == piece_on(b, tx, ty));
            assert(!probe_hit(pb, k, kind, c, v));
        }
        assert(false);
    }
}


} // verus!
