//! Game state and the state-transition step.
//!
//! `apply_move` is the single writer of game state: it validates a
//! requested move against the current state, applies it to a fresh copy
//! (the input is never mutated), updates the en-passant target, recomputes
//! the checked flag for the side now to move, and reports the resulting
//! state: a win by king capture, checkmate, stalemate, check, or an
//! ordinary awaiting-move state.

use vstd::prelude::*;

use crate::board::Board;
use crate::board::Color;
use crate::board::Location;
use crate::board::Piece;
use crate::board::PieceKind;
use crate::board::after_move;
use crate::board::board_ok;
use crate::board::on_board;
use crate::board::opposite;
use crate::board::other_color;
use crate::board::piece_on;
use crate::check::in_check;
use crate::check::is_checked;
use crate::check::king_at;
use crate::check::king_spot;
use crate::check::lemma_king_preserved;
use crate::check::one_king;
use crate::moves::absd;
use crate::moves::dist;
use crate::rules::all_probe_safe;
use crate::rules::can_move;
use crate::rules::contains_vec;
use crate::rules::get_moves;
use crate::rules::has_no_valid_moves;
use crate::rules::move_allowed;
use crate::rules::probe_safe;
use crate::rules::valid_move;

verus! {

/// The authoritative game state: the board, the current en-passant target
/// (set to a pawn's destination right after its double step and cleared on
/// every following move), and the checked flag (whether the side about to
/// move must have its candidate moves filtered for king safety).  Whose
/// turn it is stays with the surrounding control loop.
#[derive(Debug)]
pub struct Game {
    pub board: Board,
    pub cur_en_passant: Option<Location>,
    pub is_checked: bool,
}

/// The state reached after a completed move.
#[derive(Copy, Clone, Debug, PartialEq, Eq, Structural)]
pub enum Status {
    /// Play continues; the named side is not in check.
    AwaitingMove,
    /// Play continues; the named side must move out of check.
    InCheck(Color),
    /// The named side is checked and has no moves; the game is over.
    Checkmate(Color),
    /// The side to move is not checked and has no moves; the game is over.
    Stalemate,
    /// The named side captured the opposing king; the game is over.
    Won(Color),
}

/// Why a requested move was rejected.  Rejections leave the state as it
/// was; the caller may re-prompt.
#[derive(Copy, Clone, Debug, PartialEq, Eq, Structural)]
pub enum MoveError {
    /// The source square holds no piece.
    EmptySquare,
    /// The piece on the source square does not belong to the mover.
    WrongColor,
    /// The destination square holds a piece of the mover's own color.
    DestinationOccupied,
    /// The displacement is not in the piece's move set.
    NotInMoveSet,
}

/// The piece kind standing on file `x` of a back rank at the start.
pub open spec fn back_rank_kind(x: int) -> PieceKind {
    if x == 0 || x == 7 {
        PieceKind::Rook
    } else if x == 1 || x == 6 {
        PieceKind::Knight
    } else if x == 2 || x == 5 {
        PieceKind::Bishop
    } else if x == 3 {
        PieceKind::Queen
    } else {
        PieceKind::King
    }
}

/// The standard starting position: Black's back rank and pawns on ranks 0
/// and 1, White's pawns and back rank on ranks 6 and 7.
pub open spec fn starting_square(x: int, y: int) -> Option<Piece> {
    if y == 0 {
        Some(Piece { kind: back_rank_kind(x), color: Color::Black })
    } else if y == 1 {
        Some(Piece { kind: PieceKind::Pawn, color: Color::Black })
    } else if y == 6 {
        Some(Piece { kind: PieceKind::Pawn, color: Color::White })
    } else if y == 7 {
        Some(Piece { kind: back_rank_kind(x), color: Color::White })
    } else {
        None
    }
}

/// The starting piece of square `(x, y)`, as executable code.
fn starting_piece(x: usize, y: usize) -> (r: Option<Piece>)
    requires
        x < 8,
        y < 8,
    ensures
        r == starting_square(x as int, y as int),
{
    if y == 0 || y == 7 {
        let color = if y == 0 {
            Color::Black
        } else {
            Color::White
        };
        let kind = if x == 0 || x == 7 {
            PieceKind::Rook
        } else if x == 1 || x == 6 {
            PieceKind::Knight
        } else if x == 2 || x == 5 {
            PieceKind::Bishop
        } else if x == 3 {
            PieceKind::Queen
        } else {
            PieceKind::King
        };
        Some(Piece { kind, color })
    } else if y == 1 {
        Some(Piece { kind: PieceKind::Pawn, color: Color::Black })
    } else if y == 6 {
        Some(Piece { kind: PieceKind::Pawn, color: Color::White })
    } else {
        None
    }
}

impl Board {
    /// The standard starting position.
    pub fn starting() -> (r: Board)
        ensures
            board_ok(r@),
            forall|x: int, y: int| on_board(x, y) ==> piece_on(r@, x, y) == starting_square(x, y),
    {
        let mut squares: Vec<Option<Piece>> = Vec::new();
        let mut y: usize = 0;
        while y < 8
            invariant
                y <= 8,
                squares@.len() == y * 8,
                forall|x2: int, y2: int|
                    0 <= x2 < 8 && 0 <= y2 < y ==> squares@[y2 * 8 + x2] == starting_square(
                        x2,
                        y2,
                    ),
            decreases 8 - y,
        {
            let mut x: usize = 0;
            while x < 8
                invariant
                    y < 8,
                    x <= 8,
                    squares@.len() == y * 8 + x,
                    forall|x2: int, y2: int|
                        0 <= x2 < 8 && 0 <= y2 < y ==> squares@[y2 * 8 + x2] == starting_square(
                            x2,
                            y2,
                        ),
                    forall|x2: int| 0 <= x2 < x ==> squares@[y * 8 + x2] == starting_square(
                        x2,
                        y as int,
                    ),
                decreases 8 - x,
            {
                squares.push(starting_piece(x, y));
                x = x + 1;
            }
            y = y + 1;
        }
        Board { squares }
    }
}

impl Game {
    /// A fresh game: the starting position, no en-passant target, and the
    /// side to move not in check.
    pub fn new() -> (g: Game)
        ensures
            board_ok(g.board@),
            forall|x: int, y: int| on_board(x, y) ==> piece_on(g.board@, x, y) == starting_square(
                x,
                y,
            ),
            g.cur_en_passant is None,
            g.is_checked == false,
    {
        Game { board: Board::starting(), cur_en_passant: None, is_checked: false }
    }
}

/// Whether the requested move captures a king (always the opposing one,
/// since a move onto an own piece is rejected first).
pub open spec fn captures_king(b: Seq<Option<Piece>>, to: Location) -> bool {
    piece_on(b, to.0 as int, to.1 as int) matches Some(t) && t.kind == PieceKind::King
}

/// The en-passant target after moving the piece on `from` to `to`: the
/// destination of a pawn moved over a taxicab distance of two, and no
/// target otherwise.
pub open spec fn next_en_passant(b: Seq<Option<Piece>>, from: Location, to: Location) -> Option<
    Location,
> {
    if (piece_on(b, from.0 as int, from.1 as int) matches Some(p) && p.kind == PieceKind::Pawn)
        && absd(from.0 as int, to.0 as int) + absd(from.1 as int, to.1 as int) == 2 {
        Some(to)
    } else {
        None
    }
}

/// The move is accepted: the source holds a piece of the mover's color and
/// the move passes validation.
pub open spec fn accepted(
    b: Seq<Option<Piece>>,
    ep: Option<Location>,
    checked: bool,
    mover: Color,
    from: Location,
    to: Location,
) -> bool {
    (piece_on(b, from.0 as int, from.1 as int) matches Some(p) && p.color == mover) && valid_move(
        b,
        ep,
        checked,
        from,
        to,
    )
}

/// The state an accepted move from `from` to `to` by `mover` leads to.
pub open spec fn outcome(b: Seq<Option<Piece>>, mover: Color, from: Location, to: Location) -> Status {
    if captures_king(b, to) {
        Status::Won(mover)
    } else {
        let nb = after_move(b, from, to);
        let nep = next_en_passant(b, from, to);
        let opp = opposite(mover);
        if in_check(nb, nep, opp) {
            if !can_move(nb, nep, true, opp) {
                Status::Checkmate(opp)
            } else {
                Status::InCheck(opp)
            }
        } else {
            if !can_move(nb, nep, false, opp) {
                Status::Stalemate
            } else {
                Status::AwaitingMove
            }
        }
    }
}

/// Applies the move `from -> to` requested by `mover` to a copy of the
/// state, without mutating the input.
///
/// A rejected move reports why and changes nothing.  An accepted move
/// yields the new state — board with the piece moved, en-passant target
/// set or cleared, checked flag recomputed for the opponent — and the
/// state tag: `Won` on king capture, `Checkmate` or `InCheck` when the
/// opponent stands in check, `Stalemate` when not checked and out of
/// moves, `AwaitingMove` otherwise.
pub fn apply_move(from: Location, to: Location, game: &Game, mover: Color) -> (r: Result<
    (Game, Status),
    MoveError,
>)
    requires
        board_ok(game.board@),
        on_board(from.0 as int, from.1 as int),
        on_board(to.0 as int, to.1 as int),
        one_king(game.board@, opposite(mover)),
        (game.is_checked && (piece_on(game.board@, from.0 as int, from.1 as int) matches Some(p)
            && p.color == mover)) ==> probe_safe(game.board@, game.cur_en_passant, from),
        (accepted(game.board@, game.cur_en_passant, game.is_checked, mover, from, to)
            && !captures_king(game.board@, to) && in_check(
            after_move(game.board@, from, to),
            next_en_passant(game.board@, from, to),
            opposite(mover),
        )) ==> all_probe_safe(
            after_move(game.board@, from, to),
            next_en_passant(game.board@, from, to),
            opposite(mover),
        ),
    ensures
        r is Ok <==> accepted(game.board@, game.cur_en_passant, game.is_checked, mover, from, to),
        (r == Err::<(Game, Status), MoveError>(MoveError::EmptySquare)) <==> piece_on(
            game.board@,
            from.0 as int,
            from.1 as int,
        ) is None,
        (r == Err::<(Game, Status), MoveError>(MoveError::WrongColor)) <==> (piece_on(
            game.board@,
            from.0 as int,
            from.1 as int,
        ) matches Some(p) && p.color != mover),
        (r == Err::<(Game, Status), MoveError>(MoveError::DestinationOccupied)) <==> ((piece_on(
            game.board@,
            from.0 as int,
            from.1 as int,
        ) matches Some(p) && p.color == mover) && (piece_on(
            game.board@,
            to.0 as int,
            to.1 as int,
        ) matches Some(t) && t.color == mover)),
        (r == Err::<(Game, Status), MoveError>(MoveError::NotInMoveSet)) <==> ((piece_on(
            game.board@,
            from.0 as int,
            from.1 as int,
        ) matches Some(p) && p.color == mover) && !(piece_on(
            game.board@,
            to.0 as int,
            to.1 as int,
        ) matches Some(t) && t.color == mover) && !move_allowed(
            game.board@,
            game.cur_en_passant,
            game.is_checked,
            from,
            (((to.0 - from.0) as i8), ((to.1 - from.1) as i8)),
        )),
        r is Ok ==> ({
            let (g2, st) = r->Ok_0;
            &&& g2.board@ == after_move(game.board@, from, to)
            &&& g2.cur_en_passant == next_en_passant(game.board@, from, to)
            &&& g2.is_checked == (!captures_king(game.board@, to) && in_check(
                g2.board@,
                g2.cur_en_passant,
                opposite(mover),
            ))
            &&& st == outcome(game.board@, mover, from, to)
            &&& board_ok(g2.board@)
            &&& piece_on(g2.board@, to.0 as int, to.1 as int) == piece_on(
                game.board@,
                from.0 as int,
                from.1 as int,
            )
            &&& piece_on(g2.board@, from.0 as int, from.1 as int) is None
        }),
{
    let p = match game.board.get(from) {
        None => {
            return Err(MoveError::EmptySquare);
        },
        Some(p) => p,
    };
    if p.color != mover {
        return Err(MoveError::WrongColor);
    }
    match game.board.get(to) {
        Some(t) => {
            if t.color == p.color {
                return Err(MoveError::DestinationOccupied);
            }
        },
        None => {},
    }
    let diff: (i8, i8) = (to.0 as i8 - from.0 as i8, to.1 as i8 - from.1 as i8);
    let mvs = get_moves(from, game);
    if !contains_vec(&mvs, diff) {
        return Err(MoveError::NotInMoveSet);
    }
    let captured = game.board.get(to);
    let took_king = match captured {
        Some(t) => t.kind == PieceKind::King,
        None => false,
    };
    let d = dist(from, to);
    let mut nb = game.board.copied();
    nb.set(to, Some(p));
    nb.set(from, None);
    proof {
        assert(nb@ == after_move(game.board@, from, to));
    }
    let nep: Option<Location> = if p.kind == PieceKind::Pawn && d == 2 {
        Some(to)
    } else {
        None
    };
    if took_king {
        let g2 = Game { board: nb, cur_en_passant: nep, is_checked: false };
        return Ok((g2, Status::Won(mover)));
    }
    let opp = other_color(mover);
    proof {
        let ks = king_spot(game.board@, opp);
        assert(king_at(game.board@, opp, ks.0, ks.1));
        assert((to.0 as int, to.1 as int) != ks);
        lemma_king_preserved(game.board@, from, to, opp);
    }
    let g1 = Game { board: nb, cur_en_passant: nep, is_checked: false };
    let chk = is_checked(&g1, opp);
    let g2 = Game { board: g1.board, cur_en_passant: nep, is_checked: chk };
    let st = if chk {
        if has_no_valid_moves(&g2, opp) {
            Status::Checkmate(opp)
        } else {
            Status::InCheck(opp)
        }
    } else {
        if has_no_valid_moves(&g2, opp) {
            Status::Stalemate
        } else {
            Status::AwaitingMove
        }
    };
    Ok((g2, st))
}

} // verus!
