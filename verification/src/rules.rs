//! Legal-move queries.
//!
//! `get_moves` produces a piece's move set: the pseudo-legal patterns,
//! and, when the side to move is flagged as checked, only those candidates
//! that survive speculative simulation.  A candidate survives when, after
//! playing it on a scratch copy of the board, the reverse probes report
//! the *opposing* king out of check; this probe polarity is the engine's
//! own convention and is kept exactly as it stands.

use vstd::prelude::*;

use crate::board::Location;
use crate::board::Piece;
use crate::board::after_move;
use crate::board::board_ok;
use crate::board::on_board;
use crate::board::opposite;
use crate::board::other_color;
use crate::board::piece_on;
use crate::check::in_check;
use crate::check::is_checked;
use crate::check::king_spot;
use crate::check::lemma_king_preserved;
use crate::check::one_king;
use crate::game::Game;
use crate::moves::pattern_moves;
use crate::moves::pseudo_legal;

verus! {

/// Playing the piece on `loc` by `v` leaves the king of the side opposing
/// that piece out of check in the resulting position.
pub open spec fn survives(
    b: Seq<Option<Piece>>,
    ep: Option<Location>,
    loc: Location,
    v: (i8, i8),
) -> bool {
    let to = (((loc.0 + v.0) as usize), ((loc.1 + v.1) as usize));
    match piece_on(b, loc.0 as int, loc.1 as int) {
        Some(p) => !in_check(after_move(b, loc, to), ep, opposite(p.color)),
        None => false,
    }
}

/// The move set `get_moves` returns: pseudo-legal, and filtered for king
/// safety when the checked flag is set.
pub open spec fn move_allowed(
    b: Seq<Option<Piece>>,
    ep: Option<Location>,
    checked: bool,
    loc: Location,
    v: (i8, i8),
) -> bool {
    pseudo_legal(b, ep, loc, v) && (checked ==> on_board(loc.0 + v.0, loc.1 + v.1) && survives(
        b,
        ep,
        loc,
        v,
    ))
}

/// The speculative filter can probe every candidate of the piece on `loc`:
/// the opposing king is the only one of its color, and no candidate
/// captures it (a position where one could becomes unevaluable and is a
/// fatal precondition violation, as querying a board without the probed
/// king would be).
pub open spec fn probe_safe(b: Seq<Option<Piece>>, ep: Option<Location>, loc: Location) -> bool {
    match piece_on(b, loc.0 as int, loc.1 as int) {
        Some(p) => one_king(b, opposite(p.color)) && forall|v: (i8, i8)|
            #[trigger] pseudo_legal(b, ep, loc, v) && on_board(loc.0 + v.0, loc.1 + v.1) ==> (
            loc.0 + v.0,
            loc.1 + v.1,
        ) != king_spot(b, opposite(p.color)),
        None => false,
    }
}

/// Every piece of color `color` can have its candidates probed.
pub open spec fn all_probe_safe(
    b: Seq<Option<Piece>>,
    ep: Option<Location>,
    color: crate::board::Color,
) -> bool {
    forall|loc: Location|
        on_board(loc.0 as int, loc.1 as int) && (piece_on(b, loc.0 as int, loc.1 as int) matches
        Some(p) && p.color == color) ==> #[trigger] probe_safe(b, ep, loc)
}

/// Some piece of color `color` has a move in its `get_moves` set.
pub open spec fn can_move(
    b: Seq<Option<Piece>>,
    ep: Option<Location>,
    checked: bool,
    color: crate::board::Color,
) -> bool {
    exists|loc: Location, v: (i8, i8)|
        on_board(loc.0 as int, loc.1 as int) && (piece_on(b, loc.0 as int, loc.1 as int) matches
        Some(p) && p.color == color) && #[trigger] move_allowed(b, ep, checked, loc, v)
}

/// Whether `mvs` holds the displacement `v`.
pub(crate) fn contains_vec(mvs: &Vec<(i8, i8)>, v: (i8, i8)) -> (r: bool)
    ensures
        r == mvs@.contains(v),
{
    let mut i: usize = 0;
    while i < mvs.len()
        invariant
            i <= mvs@.len(),
            forall|j: int| 0 <= j < i ==> mvs@[j] != v,
        decreases mvs@.len() - i,
    {
        let m = mvs[i];
        if m.0 == v.0 && m.1 == v.1 {
            assert(mvs@.contains(mvs@[i as int]));
            return true;
        }
        i = i + 1;
    }
    proof {
        if mvs@.contains(v) {
            let j = choose|j: int| 0 <= j < mvs@.len() && mvs@[j] == v;
        }
    }
    false
}

/// The move set of the piece on `loc`: every pseudo-legal displacement,
/// filtered through speculative simulation when the checked flag is set.
pub fn get_moves(loc: Location, game: &Game) -> (r: Vec<(i8, i8)>)
    requires
        board_ok(game.board@),
        on_board(loc.0 as int, loc.1 as int),
        piece_on(game.board@, loc.0 as int, loc.1 as int) is Some,
        game.is_checked ==> probe_safe(game.board@, game.cur_en_passant, loc),
    ensures
        forall|v: (i8, i8)| #[trigger] r@.contains(v) <==> move_allowed(
            game.board@,
            game.cur_en_passant,
            game.is_checked,
            loc,
            v,
        ),
{
    let mvs = pattern_moves(&game.board, game.cur_en_passant, loc);
    if !game.is_checked {
        return mvs;
    }
    let p = game.board.get(loc).unwrap();
    let opp = other_color(p.color);
    let mut out: Vec<(i8, i8)> = Vec::new();
    let mut i: usize = 0;
    while i < mvs.len()
        invariant
            board_ok(game.board@),
            on_board(loc.0 as int, loc.1 as int),
            piece_on(game.board@, loc.0 as int, loc.1 as int) == Some(p),
            game.is_checked,
            probe_safe(game.board@, game.cur_en_passant, loc),
            opp == opposite(p.color),
            i <= mvs@.len(),
            forall|v: (i8, i8)| #[trigger] mvs@.contains(v) <==> pseudo_legal(
                game.board@,
                game.cur_en_passant,
                loc,
                v,
            ),
            forall|v: (i8, i8)| #[trigger] out@.contains(v) <==> (exists|j: int|
                0 <= j < i && mvs@[j] == v) && on_board(loc.0 + v.0, loc.1 + v.1) && survives(
                game.board@,
                game.cur_en_passant,
                loc,
                v,
            ),
        decreases mvs@.len() - i,
    {
        let v = mvs[i];
        proof {
            assert(mvs@.contains(mvs@[i as int]));
        }
        let nx: i16 = loc.0 as i16 + v.0 as i16;
        let ny: i16 = loc.1 as i16 + v.1 as i16;
        if nx >= 0 && nx <= 7 && ny >= 0 && ny <= 7 {
            let to = (nx as usize, ny as usize);
            let mut nb = game.board.copied();
            nb.set(to, Some(p));
            nb.set(loc, None);
            proof {
                assert(piece_on(game.board@, loc.0 as int, loc.1 as int) == Some(p));
                assert(nb@ == after_move(game.board@, loc, to));
                lemma_king_preserved(game.board@, loc, to, opp);
            }
            let ng = Game { board: nb, cur_en_passant: game.cur_en_passant, is_checked: false };
            let checked_after = is_checked(&ng, opp);
            if !checked_after {
                proof {
                    crate::moves::lemma_push_contains(out@, v);
                    assert(survives(game.board@, game.cur_en_passant, loc, v));
                }
                out.push(v);
            } else {
                proof {
                    assert(!survives(game.board@, game.cur_en_passant, loc, v));
                }
            }
        }
        i = i + 1;
    }
    proof {
        assert forall|v: (i8, i8)| #[trigger] out@.contains(v) <==> move_allowed(
            game.board@,
            game.cur_en_passant,
            game.is_checked,
            loc,
            v,
        ) by {
            if out@.contains(v) {
                assert(mvs@.contains(v));
            }
            if move_allowed(game.board@, game.cur_en_passant, game.is_checked, loc, v) {
                assert(mvs@.contains(v));
                let j = choose|j: int| 0 <= j < mvs@.len() && mvs@[j] == v;
            }
        }
    }
    out
}

/// The legal-move query of the engine's boundary: the move set of the
/// piece on `square` under the current state (read-only).
pub fn legal_moves(square: Location, game: &Game) -> (r: Vec<(i8, i8)>)
    requires
        board_ok(game.board@),
        on_board(square.0 as int, square.1 as int),
        piece_on(game.board@, square.0 as int, square.1 as int) is Some,
        game.is_checked ==> probe_safe(game.board@, game.cur_en_passant, square),
    ensures
        forall|v: (i8, i8)| #[trigger] r@.contains(v) <==> move_allowed(
            game.board@,
            game.cur_en_passant,
            game.is_checked,
            square,
            v,
        ),
{
    get_moves(square, game)
}

/// The move from `from` to `to` is accepted for the piece on `from`: the
/// destination holds no piece of the same color, and the displacement is
/// in the piece's move set.
pub open spec fn valid_move(
    b: Seq<Option<Piece>>,
    ep: Option<Location>,
    checked: bool,
    from: Location,
    to: Location,
) -> bool {
    match piece_on(b, from.0 as int, from.1 as int) {
        Some(p) => (match piece_on(b, to.0 as int, to.1 as int) {
            Some(t) => t.color != p.color,
            None => true,
        }) && move_allowed(
            b,
            ep,
            checked,
            from,
            (((to.0 - from.0) as i8), ((to.1 - from.1) as i8)),
        ),
        None => false,
    }
}

impl Piece {
    /// Whether this piece, standing on `from`, may move to `to`: rejected
    /// when `to` holds a piece of its own color, otherwise decided by
    /// membership of `to - from` in the move set.
    pub fn is_valid_move(&self, from: Location, to: Location, game: &Game) -> (r: bool)
        requires
            board_ok(game.board@),
            on_board(from.0 as int, from.1 as int),
            on_board(to.0 as int, to.1 as int),
            piece_on(game.board@, from.0 as int, from.1 as int) == Some(*self),
            game.is_checked ==> probe_safe(game.board@, game.cur_en_passant, from),
        ensures
            r == valid_move(
                game.board@,
                game.cur_en_passant,
                game.is_checked,
                from,
                to,
            ),
    {
        match game.board.get(to) {
            Some(el) => {
                if el.color == self.color {
                    return false;
                }
            },
            None => {},
        }
        let diff: (i8, i8) = (to.0 as i8 - from.0 as i8, to.1 as i8 - from.1 as i8);
        let mvs = get_moves(from, game);
        contains_vec(&mvs, diff)
    }
}

/// Whether no piece of `color` has any move in its move set: for every
/// square holding a piece of that color, `get_moves` comes back empty.
/// Used to recognize checkmate (when checked) and stalemate (when not).
pub fn has_no_valid_moves(game: &Game, color: crate::board::Color) -> (r: bool)
    requires
        board_ok(game.board@),
        game.is_checked ==> all_probe_safe(game.board@, game.cur_en_passant, color),
    ensures
        r == !can_move(game.board@, game.cur_en_passant, game.is_checked, color),
{
    let mut y: usize = 0;
    while y < 8
        invariant
            board_ok(game.board@),
            game.is_checked ==> all_probe_safe(game.board@, game.cur_en_passant, color),
            y <= 8,
            forall|loc: Location, v: (i8, i8)|
                on_board(loc.0 as int, loc.1 as int) && loc.1 < y && (piece_on(
                    game.board@,
                    loc.0 as int,
                    loc.1 as int,
                ) matches Some(p) && p.color == color) ==> !#[trigger] move_allowed(
                    game.board@,
                    game.cur_en_passant,
                    game.is_checked,
                    loc,
                    v,
                ),
        decreases 8 - y,
    {
        let mut x: usize = 0;
        while x < 8
            invariant
                board_ok(game.board@),
                game.is_checked ==> all_probe_safe(game.board@, game.cur_en_passant, color),
                y < 8,
                x <= 8,
                forall|loc: Location, v: (i8, i8)|
                    on_board(loc.0 as int, loc.1 as int) && (loc.1 < y || (loc.1 == y && loc.0
                        < x)) && (piece_on(game.board@, loc.0 as int, loc.1 as int) matches Some(p)
                        && p.color == color) ==> !#[trigger] move_allowed(
                        game.board@,
                        game.cur_en_passant,
                        game.is_checked,
                        loc,
                        v,
                    ),
            decreases 8 - x,
        {
            let loc: Location = (x, y);
            match game.board.get(loc) {
                Some(p) => {
                    if p.color == color {
                        let mvs = get_moves(loc, game);
                        if mvs.len() > 0 {
                            proof {
                                assert(mvs@.contains(mvs@[0]));
                                assert(move_allowed(
                                    game.board@,
                                    game.cur_en_passant,
                                    game.is_checked,
                                    loc,
                                    mvs@[0],
                                ));
                            }
                            return false;
                        }
                        proof {
                            assert forall|v: (i8, i8)| !#[trigger] move_allowed(
                                game.board@,
                                game.cur_en_passant,
                                game.is_checked,
                                loc,
                                v,
                            ) by {
                                if move_allowed(
                                    game.board@,
                                    game.cur_en_passant,
                                    game.is_checked,
                                    loc,
                                    v,
                                ) {
                                    assert(mvs@.contains(v));
                                }
                            }
                        }
                    }
                },
                None => {},
            }
            x = x + 1;
        }
        y = y + 1;
    }
    proof {
        if can_move(game.board@, game.cur_en_passant, game.is_checked, color) {
            let (loc, v) = choose|loc: Location, v: (i8, i8)|
                on_board(loc.0 as int, loc.1 as int) && (piece_on(
                    game.board@,
                    loc.0 as int,
                    loc.1 as int,
                ) matches Some(p) && p.color == color) && #[trigger] move_allowed(
                    game.board@,
                    game.cur_en_passant,
                    game.is_checked,
                    loc,
                    v,
                );
            assert(false);
        }
    }
    true
}

/// Whether the piece on `loc` can have its candidates probed safely:
/// decides `probe_safe` at run time, so a caller can test it before
/// querying moves under the checked flag.
pub fn probe_safe_for(game: &Game, loc: Location) -> (r: bool)
    requires
        board_ok(game.board@),
        on_board(loc.0 as int, loc.1 as int),
    ensures
        r == probe_safe(game.board@, game.cur_en_passant, loc),
{
    let p = match game.board.get(loc) {
        None => {
            return false;
        },
        Some(p) => p,
    };
    let opp = other_color(p.color);
    let k = match crate::check::find_sole_king(&game.board, opp) {
        None => {
            return false;
        },
        Some(k) => k,
    };
    let mvs = pattern_moves(&game.board, game.cur_en_passant, loc);
    let mut i: usize = 0;
    while i < mvs.len()
        invariant
            board_ok(game.board@),
            on_board(loc.0 as int, loc.1 as int),
            piece_on(game.board@, loc.0 as int, loc.1 as int) == Some(p),
            opp == opposite(p.color),
            one_king(game.board@, opp),
            (k.0 as int, k.1 as int) == king_spot(game.board@, opp),
            i <= mvs@.len(),
            forall|v: (i8, i8)| #[trigger] mvs@.contains(v) <==> pseudo_legal(
                game.board@,
                game.cur_en_passant,
                loc,
                v,
            ),
            forall|j: int|
                0 <= j < i ==> !(on_board(loc.0 + mvs@[j].0, loc.1 + #[trigger] mvs@[j].1) && (
                loc.0 + mvs@[j].0,
                loc.1 + mvs@[j].1,
                ) == king_spot(game.board@, opp)),
        decreases mvs@.len() - i,
    {
        let v = mvs[i];
        let nx: i16 = loc.0 as i16 + v.0 as i16;
        let ny: i16 = loc.1 as i16 + v.1 as i16;
        if nx >= 0 && nx <= 7 && ny >= 0 && ny <= 7 && nx as usize == k.0 && ny as usize == k.1 {
            proof {
                assert(mvs@.contains(mvs@[i as int]));
                assert(pseudo_legal(game.board@, game.cur_en_passant, loc, v) && on_board(
                    loc.0 + v.0,
                    loc.1 + v.1,
                ) && (loc.0 + v.0, loc.1 + v.1) == king_spot(game.board@, opp));
            }
            return false;
        }
        i = i + 1;
    }
    proof {
        assert forall|v: (i8, i8)|
            #[trigger] pseudo_legal(game.board@, game.cur_en_passant, loc, v) && on_board(
                loc.0 + v.0,
                loc.1 + v.1,
            ) implies (loc.0 + v.0, loc.1 + v.1) != king_spot(game.board@, opp) by {
            assert(mvs@.contains(v));
            let j = choose|j: int| 0 <= j < mvs@.len() && mvs@[j] == v;
            assert(!(on_board(loc.0 + mvs@[j].0, loc.1 + mvs@[j].1) && (
            loc.0 + mvs@[j].0,
            loc.1 + mvs@[j].1,
            ) == king_spot(game.board@, opp)));
        }
    }
    true
}

/// Whether the position reached by moving `from -> to` can be fully
/// evaluated for the side opposing `mover`: every piece of that side can
/// have its candidates probed.  A caller tests this before applying a
/// move whose resulting position must be searched for a reply.
pub fn position_evaluable(from: Location, to: Location, game: &Game, mover: crate::board::Color) -> (r:
    bool)
    requires
        board_ok(game.board@),
        on_board(from.0 as int, from.1 as int),
        on_board(to.0 as int, to.1 as int),
    ensures
        r == all_probe_safe(
            after_move(game.board@, from, to),
            crate::game::next_en_passant(game.board@, from, to),
            opposite(mover),
        ),
{
    let nep: Option<Location> = match game.board.get(from) {
        Some(p) => {
            if p.kind == crate::board::PieceKind::Pawn && crate::moves::dist(from, to) == 2 {
                Some(to)
            } else {
                None
            }
        },
        None => None,
    };
    let mut nb = game.board.copied();
    let moving = game.board.get(from);
    nb.set(to, moving);
    nb.set(from, None);
    proof {
        assert(nb@ == after_move(game.board@, from, to));
    }
    let ng = Game { board: nb, cur_en_passant: nep, is_checked: false };
    let opp = other_color(mover);
    let mut y: usize = 0;
    while y < 8
        invariant
            board_ok(ng.board@),
            ng.board@ == after_move(game.board@, from, to),
            ng.cur_en_passant == crate::game::next_en_passant(game.board@, from, to),
            opp == opposite(mover),
            y <= 8,
            forall|loc: Location|
                on_board(loc.0 as int, loc.1 as int) && loc.1 < y && (piece_on(
                    ng.board@,
                    loc.0 as int,
                    loc.1 as int,
                ) matches Some(q) && q.color == opp) ==> #[trigger] probe_safe(
                    ng.board@,
                    ng.cur_en_passant,
                    loc,
                ),
        decreases 8 - y,
    {
        let mut x: usize = 0;
        while x < 8
            invariant
                board_ok(ng.board@),
                ng.board@ == after_move(game.board@, from, to),
                ng.cur_en_passant == crate::game::next_en_passant(game.board@, from, to),
                opp == opposite(mover),
                y < 8,
                x <= 8,
                forall|loc: Location|
                    on_board(loc.0 as int, loc.1 as int) && (loc.1 < y || (loc.1 == y && loc.0
                        < x)) && (piece_on(ng.board@, loc.0 as int, loc.1 as int) matches Some(q)
                        && q.color == opp) ==> #[trigger] probe_safe(
                        ng.board@,
                        ng.cur_en_passant,
                        loc,
                    ),
            decreases 8 - x,
        {
            let loc: Location = (x, y);
            match ng.board.get(loc) {
                Some(q) => {
                    if q.color == opp {
                        if !probe_safe_for(&ng, loc) {
                            return false;
                        }
                    }
                },
                None => {},
            }
            x = x + 1;
        }
        y = y + 1;
    }
    true
}

} // verus!
