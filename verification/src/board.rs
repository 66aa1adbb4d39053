//! The board: an 8x8 grid of optional pieces.
//!
//! A square is addressed by a zero-based `(file, rank)` pair, where file 0
//! is the a-file and rank 0 is Black's back rank.  The grid is stored as a
//! flat vector of 64 squares, rank by rank.

use vstd::prelude::*;

verus! {

/// A zero-based `(file, rank)` coordinate pair.  Both components of a valid
/// square lie in `[0, 7]`; anything else is out of bounds.
pub type Location = (usize, usize);

/// The two sides.  Black pawns advance toward increasing rank, White pawns
/// toward decreasing rank.
#[derive(Copy, Clone, Debug, PartialEq, Eq, Structural)]
pub enum Color {
    Black,
    White,
}

/// The six piece kinds.  A piece never changes kind (there is no promotion).
#[derive(Copy, Clone, Debug, PartialEq, Eq, Structural)]
pub enum PieceKind {
    Pawn,
    Knight,
    Bishop,
    Rook,
    Queen,
    King,
}

/// A piece is a `(kind, color)` value; moving one copies the value to the
/// destination square and clears the source square.
#[derive(Copy, Clone, Debug, PartialEq, Eq, Structural)]
pub struct Piece {
    pub kind: PieceKind,
    pub color: Color,
}

/// The side opposing `c`.
pub open spec fn opposite(c: Color) -> Color {
    match c {
        Color::Black => Color::White,
        Color::White => Color::Black,
    }
}

/// The side opposing `c`, as executable code.
pub fn other_color(c: Color) -> (r: Color)
    ensures
        r == opposite(c),
{
    match c {
        Color::Black => Color::White,
        Color::White => Color::Black,
    }
}

/// The board contents after moving the piece on `from` to `to`: the moved
/// value is copied to the destination and the source square is cleared.
pub open spec fn after_move(b: Seq<Option<Piece>>, from: Location, to: Location) -> Seq<
    Option<Piece>,
> {
    b.update(to.1 * 8 + to.0, piece_on(b, from.0 as int, from.1 as int)).update(
        from.1 * 8 + from.0,
        None,
    )
}

/// Whether the coordinates name a square of the 8x8 board.
pub open spec fn on_board(x: int, y: int) -> bool {
    0 <= x < 8 && 0 <= y < 8
}

/// The piece standing on square `(x, y)` of board contents `b`.
pub open spec fn piece_on(b: Seq<Option<Piece>>, x: int, y: int) -> Option<Piece> {
    b[y * 8 + x]
}

/// Board contents are well formed when all 64 squares are present.
pub open spec fn board_ok(b: Seq<Option<Piece>>) -> bool {
    b.len() == 64
}

/// An 8x8 grid of optional pieces, stored rank by rank.
#[derive(Debug)]
pub struct Board {
    pub squares: Vec<Option<Piece>>,
}

impl View for Board {
    type V = Seq<Option<Piece>>;

    open spec fn view(&self) -> Seq<Option<Piece>> {
        self.squares@
    }
}

impl Board {
    /// An empty board: 64 squares, no pieces.
    pub fn empty() -> (r: Board)
        ensures
            board_ok(r@),
            forall|x: int, y: int| on_board(x, y) ==> piece_on(r@, x, y) is None,
    {
        let mut squares: Vec<Option<Piece>> = Vec::new();
        let mut i: usize = 0;
        while i < 64
            invariant
                i <= 64,
                squares@.len() == i,
                forall|k: int| 0 <= k < i ==> squares@[k] is None,
            decreases 64 - i,
        {
            squares.push(None);
            i = i + 1;
        }
        Board { squares }
    }

    /// The piece on `loc`, if any.
    pub fn get(&self, loc: Location) -> (r: Option<Piece>)
        requires
            board_ok(self@),
            on_board(loc.0 as int, loc.1 as int),
        ensures
            r == piece_on(self@, loc.0 as int, loc.1 as int),
    {
        self.squares[loc.1 * 8 + loc.0]
    }

    /// Puts `p` on `loc`, leaving every other square unchanged.
    pub fn set(&mut self, loc: Location, p: Option<Piece>)
        requires
            board_ok(old(self)@),
            on_board(loc.0 as int, loc.1 as int),
        ensures
            board_ok(final(self)@),
            final(self)@ == old(self)@.update(loc.1 * 8 + loc.0, p),
            piece_on(final(self)@, loc.0 as int, loc.1 as int) == p,
            forall|x: int, y: int|
                on_board(x, y) && !(x == loc.0 && y == loc.1) ==> piece_on(final(self)@, x, y)
                    == piece_on(old(self)@, x, y),
    {
        self.squares.set(loc.1 * 8 + loc.0, p);
    }

    /// A fresh board with the same contents.
    pub fn copied(&self) -> (r: Board)
        requires
            board_ok(self@),
        ensures
            r@ == self@,
    {
        let mut squares: Vec<Option<Piece>> = Vec::new();
        let mut i: usize = 0;
        while i < 64
            invariant
                board_ok(self@),
                i <= 64,
                squares@.len() == i,
                forall|k: int| 0 <= k < i ==> squares@[k] == self@[k],
            decreases 64 - i,
        {
            squares.push(self.squares[i]);
            i = i + 1;
        }
        proof {
            assert(squares@ =~= self@);
        }
        Board { squares }
    }
}

} // verus!
