//! Pseudo-legal move generation.
//!
//! For a piece on a square, the generator produces the displacement vectors
//! `(dx, dy)` the piece may follow given the board contents: pawns advance
//! by color (with the double step from the home rank and the en-passant
//! diagonal), knights and kings leap to fixed offsets, and bishops, rooks
//! and queens slide until blocked.  Sliding walks stop at the first occupied
//! square, which is included only when it holds an opposing piece.
//!
//! A deliberate limitation of this engine: pawns do not generate ordinary
//! diagonal captures; the only diagonal pawn move is the one toward the
//! current en-passant target.

use vstd::prelude::*;

use crate::board::Board;
use crate::board::Color;
use crate::board::Location;
use crate::board::Piece;
use crate::board::PieceKind;
use crate::board::board_ok;
use crate::board::on_board;
use crate::board::piece_on;

verus! {

/// The rank a pawn of color `c` starts on.
pub open spec fn home_rank(c: Color) -> int {
    match c {
        Color::Black => 1,
        Color::White => 6,
    }
}

/// The rank direction a pawn of color `c` advances in.
pub open spec fn forward(c: Color) -> int {
    match c {
        Color::Black => 1,
        Color::White => -1,
    }
}

/// The forward diagonal a pawn of color `c` probes first for en passant.
pub open spec fn pawn_diag_first(c: Color) -> (int, int) {
    match c {
        Color::Black => (1, 1),
        Color::White => (-1, -1),
    }
}

/// The forward diagonal a pawn of color `c` probes second for en passant.
pub open spec fn pawn_diag_second(c: Color) -> (int, int) {
    match c {
        Color::Black => (-1, 1),
        Color::White => (1, -1),
    }
}

/// Whether stepping from `loc` by `d` lands on the current en-passant target.
pub open spec fn ep_match(ep: Option<Location>, loc: Location, d: (int, int)) -> bool {
    let x = loc.0 + d.0;
    let y = loc.1 + d.1;
    on_board(x, y) && match ep {
        Some(t) => t.0 == x && t.1 == y,
        None => false,
    }
}

/// The pawn move set: from the home rank, one or two squares forward; off
/// it, the single en-passant diagonal when one matches (first diagonal
/// wins), otherwise one square forward.  Forward moves are not checked
/// against the board here; sliding and leaping pieces do their own checks.
pub open spec fn pawn_move(ep: Option<Location>, loc: Location, c: Color, v: (i8, i8)) -> bool {
    if loc.1 == home_rank(c) {
        v.0 == 0 && (v.1 == forward(c) || v.1 == 2 * forward(c))
    } else if ep_match(ep, loc, pawn_diag_first(c)) {
        v.0 == pawn_diag_first(c).0 && v.1 == pawn_diag_first(c).1
    } else if ep_match(ep, loc, pawn_diag_second(c)) {
        v.0 == pawn_diag_second(c).0 && v.1 == pawn_diag_second(c).1
    } else {
        v.0 == 0 && v.1 == forward(c)
    }
}

/// The eight knight offsets, in generation order.
pub open spec fn knight_deltas() -> Seq<(i8, i8)> {
    seq![(-1i8, -2i8), (1i8, -2i8), (2i8, -1i8), (2i8, 1i8), (1i8, 2i8), (-1i8, 2i8), (-2i8, 1i8), (-2i8, -1i8)]
}

/// The eight king offsets, in generation order.
pub open spec fn king_deltas() -> Seq<(i8, i8)> {
    seq![(-1i8, 0i8), (-1i8, -1i8), (0i8, -1i8), (1i8, -1i8), (1i8, 0i8), (1i8, 1i8), (0i8, 1i8), (-1i8, 1i8)]
}

/// Whether `(x, y)` is a square a piece of color `c` may land on: on the
/// board and not holding a piece of the same color.
pub open spec fn landing_ok(b: Seq<Option<Piece>>, c: Color, x: int, y: int) -> bool {
    on_board(x, y) && match piece_on(b, x, y) {
        None => true,
        Some(p) => p.color != c,
    }
}

/// The absolute value of a displacement component.
pub open spec fn abs8(d: i8) -> int {
    if d >= 0 {
        d as int
    } else {
        -(d as int)
    }
}

/// The number of unit steps a sliding move `v` takes.
pub open spec fn steps(v: (i8, i8)) -> int {
    if abs8(v.0) >= abs8(v.1) {
        abs8(v.0)
    } else {
        abs8(v.1)
    }
}

/// `j` unit steps in the direction of sign `s`.
pub open spec fn step_of(s: i8, j: int) -> int {
    if s > 0 {
        j
    } else if s < 0 {
        -j
    } else {
        0
    }
}

/// The file after `j` unit steps from `loc` along the direction of `v`.
pub open spec fn ray_x(loc: Location, v: (i8, i8), j: int) -> int {
    loc.0 + step_of(v.0, j)
}

/// The rank after `j` unit steps from `loc` along the direction of `v`.
pub open spec fn ray_y(loc: Location, v: (i8, i8), j: int) -> int {
    loc.1 + step_of(v.1, j)
}

/// All squares strictly between `loc` and `loc + v` along the ray are on
/// the board and empty.
pub open spec fn path_clear(b: Seq<Option<Piece>>, loc: Location, v: (i8, i8)) -> bool {
    forall|j: int|
        1 <= j < steps(v) ==> on_board(#[trigger] ray_x(loc, v, j), #[trigger] ray_y(loc, v, j))
            && piece_on(b, ray_x(loc, v, j), ray_y(loc, v, j)) is None
}

/// A nonzero displacement along a diagonal.
pub open spec fn diag_shape(v: (i8, i8)) -> bool {
    v.0 != 0 && abs8(v.0) == abs8(v.1)
}

/// A nonzero displacement along a file or a rank.
pub open spec fn ortho_shape(v: (i8, i8)) -> bool {
    (v.0 == 0 || v.1 == 0) && !(v.0 == 0 && v.1 == 0)
}

/// A sliding move of a piece of color `c`: shaped for the piece (diagonal,
/// orthogonal, or either for the queen), clear strictly in between, landing
/// on the board on an empty square or an opposing piece.
pub open spec fn slider_move(
    b: Seq<Option<Piece>>,
    loc: Location,
    c: Color,
    v: (i8, i8),
    diag: bool,
    ortho: bool,
) -> bool {
    ((diag && diag_shape(v)) || (ortho && ortho_shape(v))) && path_clear(b, loc, v) && landing_ok(
        b,
        c,
        loc.0 + v.0,
        loc.1 + v.1,
    )
}

/// `v` is a displacement the piece on `loc` may follow by its movement
/// pattern and the board occupancy, before any king-safety filtering.
pub open spec fn pseudo_legal(
    b: Seq<Option<Piece>>,
    ep: Option<Location>,
    loc: Location,
    v: (i8, i8),
) -> bool {
    match piece_on(b, loc.0 as int, loc.1 as int) {
        None => false,
        Some(p) => match p.kind {
            PieceKind::Pawn => pawn_move(ep, loc, p.color, v),
            PieceKind::Knight => knight_deltas().contains(v) && landing_ok(
                b,
                p.color,
                loc.0 + v.0,
                loc.1 + v.1,
            ),
            PieceKind::Bishop => slider_move(b, loc, p.color, v, true, false),
            PieceKind::Rook => slider_move(b, loc, p.color, v, false, true),
            PieceKind::Queen => slider_move(b, loc, p.color, v, true, true),
            PieceKind::King => king_deltas().contains(v) && landing_ok(
                b,
                p.color,
                loc.0 + v.0,
                loc.1 + v.1,
            ),
        },
    }
}

/// Membership in a sequence extended by one element.
pub(crate) proof fn lemma_push_contains<A>(s: Seq<A>, e: A)
    ensures
        forall|v: A| #[trigger] s.push(e).contains(v) <==> s.contains(v) || v == e,
{
    assert forall|v: A| #[trigger] s.push(e).contains(v) implies s.contains(v) || v == e by {
        let i = choose|i: int| 0 <= i < s.push(e).len() && s.push(e)[i] == v;
        if i < s.len() {
            assert(s[i] == v);
        }
    }
    assert forall|v: A| s.contains(v) || v == e implies #[trigger] s.push(e).contains(v) by {
        if s.contains(v) {
            let i = choose|i: int| 0 <= i < s.len() && s[i] == v;
            assert(s.push(e)[i] == v);
        } else {
            assert(s.push(e)[s.len() as int] == v);
        }
    }
}

/// Whether the coordinates miss the 8x8 board.
pub fn is_out_of_bounds(loc: (i8, i8)) -> (r: bool)
    ensures
        r == !on_board(loc.0 as int, loc.1 as int),
{
    loc.0 < 0 || loc.1 < 0 || loc.0 > 7 || loc.1 > 7
}

/// The distance between two coordinates.
pub open spec fn absd(x: int, y: int) -> int {
    if x >= y {
        x - y
    } else {
        y - x
    }
}

/// The taxicab distance between two squares.
pub fn dist(a: Location, b: Location) -> (r: usize)
    requires
        on_board(a.0 as int, a.1 as int),
        on_board(b.0 as int, b.1 as int),
    ensures
        r == absd(a.0 as int, b.0 as int) + absd(a.1 as int, b.1 as int),
{
    let dx = if a.0 >= b.0 {
        a.0 - b.0
    } else {
        b.0 - a.0
    };
    let dy = if a.1 >= b.1 {
        a.1 - b.1
    } else {
        b.1 - a.1
    };
    dx + dy
}

/// Whether stepping from `loc` by `d` lands on the en-passant target.
fn ep_hit(ep: Option<Location>, loc: Location, d: (i8, i8)) -> (r: bool)
    requires
        on_board(loc.0 as int, loc.1 as int),
    ensures
        r == ep_match(ep, loc, (d.0 as int, d.1 as int)),
{
    let nx: i16 = loc.0 as i16 + d.0 as i16;
    let ny: i16 = loc.1 as i16 + d.1 as i16;
    if nx < 0 || nx > 7 || ny < 0 || ny > 7 {
        return false;
    }
    match ep {
        Some(t) => t.0 == nx as usize && t.1 == ny as usize,
        None => false,
    }
}

/// The pawn move set from `loc` for a pawn of color `c`.
fn pawn_moves(ep: Option<Location>, loc: Location, c: Color) -> (r: Vec<(i8, i8)>)
    requires
        on_board(loc.0 as int, loc.1 as int),
    ensures
        forall|v: (i8, i8)| #[trigger] r@.contains(v) <==> pawn_move(ep, loc, c, v),
{
    let fwd: i8 = if c == Color::Black {
        1
    } else {
        -1
    };
    let home: usize = if c == Color::Black {
        1
    } else {
        6
    };
    let d1: (i8, i8) = if c == Color::Black {
        (1, 1)
    } else {
        (-1, -1)
    };
    let d2: (i8, i8) = if c == Color::Black {
        (-1, 1)
    } else {
        (1, -1)
    };
    let mut r: Vec<(i8, i8)> = Vec::new();
    if loc.1 == home {
        r.push((0, fwd));
        r.push((0, 2 * fwd));
        proof {
            lemma_push_contains(Seq::<(i8, i8)>::empty(), (0i8, fwd));
            lemma_push_contains(Seq::<(i8, i8)>::empty().push((0i8, fwd)), (0i8, (2 * fwd) as i8));
        }
    } else if ep_hit(ep, loc, d1) {
        r.push(d1);
        proof {
            lemma_push_contains(Seq::<(i8, i8)>::empty(), d1);
        }
    } else if ep_hit(ep, loc, d2) {
        r.push(d2);
        proof {
            lemma_push_contains(Seq::<(i8, i8)>::empty(), d2);
        }
    } else {
        r.push((0, fwd));
        proof {
            lemma_push_contains(Seq::<(i8, i8)>::empty(), (0i8, fwd));
        }
    }
    r
}

/// The leap move set: each offset in `deltas` whose landing square is on
/// the board and free of same-colored pieces.
fn leap_moves(board: &Board, loc: Location, c: Color, deltas: &Vec<(i8, i8)>) -> (r: Vec<(i8, i8)>)
    requires
        board_ok(board@),
        on_board(loc.0 as int, loc.1 as int),
    ensures
        forall|v: (i8, i8)| #[trigger] r@.contains(v) <==> deltas@.contains(v) && landing_ok(
            board@,
            c,
            loc.0 + v.0,
            loc.1 + v.1,
        ),
{
    let mut r: Vec<(i8, i8)> = Vec::new();
    let mut i: usize = 0;
    while i < deltas.len()
        invariant
            board_ok(board@),
            on_board(loc.0 as int, loc.1 as int),
            i <= deltas@.len(),
            forall|v: (i8, i8)| #[trigger] r@.contains(v) <==> (exists|j: int|
                0 <= j < i && deltas@[j] == v) && landing_ok(board@, c, loc.0 + v.0, loc.1 + v.1),
        decreases deltas@.len() - i,
    {
        let d = deltas[i];
        let nx: i16 = loc.0 as i16 + d.0 as i16;
        let ny: i16 = loc.1 as i16 + d.1 as i16;
        if nx >= 0 && nx <= 7 && ny >= 0 && ny <= 7 {
            let target = board.get((nx as usize, ny as usize));
            let ok = match target {
                None => true,
                Some(p) => p.color != c,
            };
            if ok {
                proof {
                    lemma_push_contains(r@, d);
                }
                r.push(d);
            }
        }
        i = i + 1;
    }
    assert forall|v: (i8, i8)| (exists|j: int| 0 <= j < deltas@.len() && deltas@[j] == v)
        <==> #[trigger] deltas@.contains(v) by {}
    r
}

/// `v` points along the unit direction `(sx, sy)`: some positive number of
/// unit steps, in that exact direction on both axes.
pub open spec fn along(v: (i8, i8), sx: i8, sy: i8) -> bool {
    1 <= steps(v) && v.0 == step_of(sx, steps(v)) && v.1 == step_of(sy, steps(v))
}

/// Walks from `loc` in the unit direction `(sx, sy)`, appending to `out`
/// the vector of every empty square passed, and of the first occupied
/// square when it holds an opposing piece; the walk stops at the board
/// edge or at that first occupied square.
fn walk_ray(board: &Board, loc: Location, c: Color, sx: i8, sy: i8, out: &mut Vec<(i8, i8)>)
    requires
        board_ok(board@),
        on_board(loc.0 as int, loc.1 as int),
        -1 <= sx <= 1,
        -1 <= sy <= 1,
        !(sx == 0 && sy == 0),
    ensures
        forall|v: (i8, i8)| #[trigger] final(out)@.contains(v) <==> old(out)@.contains(v) || (along(
            v,
            sx,
            sy,
        ) && path_clear(board@, loc, v) && landing_ok(board@, c, loc.0 + v.0, loc.1 + v.1)),
{
    let mut k: usize = 1;
    let mut cx: i8 = sx;
    let mut cy: i8 = sy;
    let mut stop = false;
    while !stop
        invariant
            board_ok(board@),
            on_board(loc.0 as int, loc.1 as int),
            -1 <= sx <= 1,
            -1 <= sy <= 1,
            !(sx == 0 && sy == 0),
            1 <= k <= 8,
            cx == step_of(sx, k as int),
            cy == step_of(sy, k as int),
            forall|j: int|
                1 <= j < k ==> on_board(
                    loc.0 + #[trigger] step_of(sx, j),
                    loc.1 + step_of(sy, j),
                ) && piece_on(board@, loc.0 + step_of(sx, j), loc.1 + step_of(sy, j)) is None,
            !stop ==> forall|v: (i8, i8)| #[trigger] out@.contains(v) <==> old(out)@.contains(v)
                || (along(v, sx, sy) && 1 <= steps(v) < k),
            stop ==> forall|v: (i8, i8)| #[trigger] out@.contains(v) <==> old(out)@.contains(v) || (
            along(v, sx, sy) && path_clear(board@, loc, v) && landing_ok(
                board@,
                c,
                loc.0 + v.0,
                loc.1 + v.1,
            )),
        decreases 8 - k + (if stop {
            0int
        } else {
            1int
        }),
    {
        let nx: i16 = loc.0 as i16 + cx as i16;
        let ny: i16 = loc.1 as i16 + cy as i16;
        if nx < 0 || nx > 7 || ny < 0 || ny > 7 {
            // The ray has left the board: every shorter vector was already
            // recorded, and no vector of this length or longer fits.
            assert forall|v: (i8, i8)| along(v, sx, sy) && path_clear(board@, loc, v) && landing_ok(
                board@,
                c,
                loc.0 + v.0,
                loc.1 + v.1,
            ) implies 1 <= steps(v) < k by {
                if steps(v) >= k {
                    assert(ray_x(loc, v, k as int) == loc.0 + step_of(sx, k as int));
                    assert(ray_y(loc, v, k as int) == loc.1 + step_of(sy, k as int));
                    if steps(v) == k {
                        assert(loc.0 + v.0 == ray_x(loc, v, k as int));
                        assert(loc.1 + v.1 == ray_y(loc, v, k as int));
                    }
                }
            }
            assert forall|v: (i8, i8)| along(v, sx, sy) && 1 <= steps(v) < k implies path_clear(
                board@,
                loc,
                v,
            ) && landing_ok(board@, c, loc.0 + v.0, loc.1 + v.1) by {
                assert forall|j: int| 1 <= j < steps(v) implies on_board(
                    #[trigger] ray_x(loc, v, j),
                    #[trigger] ray_y(loc, v, j),
                ) && piece_on(board@, ray_x(loc, v, j), ray_y(loc, v, j)) is None by {
                    assert(ray_x(loc, v, j) == loc.0 + step_of(sx, j));
                    assert(ray_y(loc, v, j) == loc.1 + step_of(sy, j));
                }
                assert(loc.0 + v.0 == loc.0 + step_of(sx, steps(v)));
                assert(loc.1 + v.1 == loc.1 + step_of(sy, steps(v)));
            }
            stop = true;
        } else {
            let target = board.get((nx as usize, ny as usize));
            match target {
                None => {
                    proof {
                        lemma_push_contains(out@, (cx, cy));
                        assert(steps((cx, cy)) == k as int);
                        if k == 8 {
                            assert(!on_board(loc.0 + step_of(sx, 8), loc.1 + step_of(sy, 8)));
                        }
                    }
                    out.push((cx, cy));
                    k = k + 1;
                    cx = cx + sx;
                    cy = cy + sy;
                },
                Some(p) => {
                    let hit_k = k;
                    if p.color != c {
                        proof {
                            lemma_push_contains(out@, (cx, cy));
                        }
                        out.push((cx, cy));
                    }
                    proof {
                        let bd = board@;
                        assert(steps((cx, cy)) == hit_k as int);
                        assert forall|v: (i8, i8)| along(v, sx, sy) && path_clear(bd, loc, v)
                            && landing_ok(bd, c, loc.0 + v.0, loc.1 + v.1) implies (1 <= steps(v)
                            < hit_k || (p.color != c && v == (cx, cy))) by {
                            if steps(v) > hit_k {
                                assert(ray_x(loc, v, hit_k as int) == loc.0 + step_of(
                                    sx,
                                    hit_k as int,
                                ));
                                assert(ray_y(loc, v, hit_k as int) == loc.1 + step_of(
                                    sy,
                                    hit_k as int,
                                ));
                            } else if steps(v) == hit_k {
                                assert(v.0 == step_of(sx, hit_k as int) && v.1 == step_of(
                                    sy,
                                    hit_k as int,
                                ));
                                assert(loc.0 + v.0 == nx as int && loc.1 + v.1 == ny as int);
                            }
                        }
                        assert forall|v: (i8, i8)| along(v, sx, sy) && 1 <= steps(v)
                            < hit_k implies path_clear(bd, loc, v) && landing_ok(
                            bd,
                            c,
                            loc.0 + v.0,
                            loc.1 + v.1,
                        ) by {
                            assert forall|j: int| 1 <= j < steps(v) implies on_board(
                                #[trigger] ray_x(loc, v, j),
                                #[trigger] ray_y(loc, v, j),
                            ) && piece_on(bd, ray_x(loc, v, j), ray_y(loc, v, j)) is None by {
                                assert(ray_x(loc, v, j) == loc.0 + step_of(sx, j));
                                assert(ray_y(loc, v, j) == loc.1 + step_of(sy, j));
                            }
                            assert(loc.0 + v.0 == loc.0 + step_of(sx, steps(v)));
                            assert(loc.1 + v.1 == loc.1 + step_of(sy, steps(v)));
                        }
                        if p.color != c {
                            assert(along((cx, cy), sx, sy));
                            assert forall|j: int| 1 <= j < steps((cx, cy)) implies on_board(
                                #[trigger] ray_x(loc, (cx, cy), j),
                                #[trigger] ray_y(loc, (cx, cy), j),
                            ) && piece_on(bd, ray_x(loc, (cx, cy), j), ray_y(loc, (cx, cy), j))
                                is None by {
                                assert(ray_x(loc, (cx, cy), j) == loc.0 + step_of(sx, j));
                                assert(ray_y(loc, (cx, cy), j) == loc.1 + step_of(sy, j));
                            }
                            assert(path_clear(bd, loc, (cx, cy)));
                            assert(landing_ok(bd, c, loc.0 + cx, loc.1 + cy));
                        }
                    }
                    stop = true;
                },
            }
        }
    }
}

/// A displacement is diagonal exactly when it points along one of the four
/// diagonal unit directions.
proof fn lemma_diag_cover()
    ensures
        forall|v: (i8, i8)| #[trigger] diag_shape(v) <==> (along(v, -1i8, -1i8) || along(v, 1i8, -1i8)
            || along(v, 1i8, 1i8) || along(v, -1i8, 1i8)),
{
}

/// A displacement is orthogonal exactly when it points along one of the
/// four orthogonal unit directions.
proof fn lemma_ortho_cover()
    ensures
        forall|v: (i8, i8)| #[trigger] ortho_shape(v) <==> (along(v, -1i8, 0i8) || along(v, 0i8, -1i8)
            || along(v, 1i8, 0i8) || along(v, 0i8, 1i8)),
{
}

/// The pseudo-legal move set of the piece on `loc`: its movement pattern
/// clipped against the board edge and the board occupancy.
pub(crate) fn pattern_moves(board: &Board, ep: Option<Location>, loc: Location) -> (r: Vec<
    (i8, i8),
>)
    requires
        board_ok(board@),
        on_board(loc.0 as int, loc.1 as int),
        piece_on(board@, loc.0 as int, loc.1 as int) is Some,
    ensures
        forall|v: (i8, i8)| #[trigger] r@.contains(v) <==> pseudo_legal(board@, ep, loc, v),
{
    let p = board.get(loc).unwrap();
    match p.kind {
        PieceKind::Pawn => pawn_moves(ep, loc, p.color),
        PieceKind::Knight => {
            let ds: Vec<(i8, i8)> = vec![
                (-1i8, -2i8),
                (1, -2),
                (2, -1),
                (2, 1),
                (1, 2),
                (-1, 2),
                (-2, 1),
                (-2, -1),
            ];
            proof {
                assert(ds@ =~= knight_deltas());
            }
            leap_moves(board, loc, p.color, &ds)
        },
        PieceKind::King => {
            let ds: Vec<(i8, i8)> = vec![
                (-1i8, 0i8),
                (-1, -1),
                (0, -1),
                (1, -1),
                (1, 0),
                (1, 1),
                (0, 1),
                (-1, 1),
            ];
            proof {
                assert(ds@ =~= king_deltas());
            }
            leap_moves(board, loc, p.color, &ds)
        },
        PieceKind::Bishop => {
            let mut out: Vec<(i8, i8)> = Vec::new();
            walk_ray(board, loc, p.color, -1, -1, &mut out);
            walk_ray(board, loc, p.color, 1, -1, &mut out);
            walk_ray(board, loc, p.color, 1, 1, &mut out);
            walk_ray(board, loc, p.color, -1, 1, &mut out);
            proof {
                lemma_diag_cover();
            }
            out
        },
        PieceKind::Rook => {
            let mut out: Vec<(i8, i8)> = Vec::new();
            walk_ray(board, loc, p.color, -1, 0, &mut out);
            walk_ray(board, loc, p.color, 0, -1, &mut out);
            walk_ray(board, loc, p.color, 1, 0, &mut out);
            walk_ray(board, loc, p.color, 0, 1, &mut out);
            proof {
                lemma_ortho_cover();
            }
            out
        },
        PieceKind::Queen => {
            let mut out: Vec<(i8, i8)> = Vec::new();
            walk_ray(board, loc, p.color, -1, -1, &mut out);
            walk_ray(board, loc, p.color, 1, -1, &mut out);
            walk_ray(board, loc, p.color, 1, 1, &mut out);
            walk_ray(board, loc, p.color, -1, 1, &mut out);
            walk_ray(board, loc, p.color, -1, 0, &mut out);
            walk_ray(board, loc, p.color, 0, -1, &mut out);
            walk_ray(board, loc, p.color, 1, 0, &mut out);
            walk_ray(board, loc, p.color, 0, 1, &mut out);
            proof {
                lemma_diag_cover();
                lemma_ortho_cover();
            }
            out
        },
    }
}

} // verus!
