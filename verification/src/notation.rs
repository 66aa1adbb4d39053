//! Algebraic coordinates and display strings.
//!
//! Squares are written file letter first (`a`..`h`, left to right) and
//! rank digit second (`8`..`1`, from Black's back rank down), so `e2` is
//! the square `(4, 6)`.  Colors wrap text in ANSI bold escapes for the
//! terminal.

use vstd::prelude::*;

use crate::board::Color;
use crate::board::Location;
use crate::board::PieceKind;
use crate::board::Piece;
use crate::board::on_board;
use vstd::string::StrSliceExecFns;
use vstd::string::StringExecFns;

verus! {

/// The letter of file `x`.
pub open spec fn file_char(x: int) -> char {
    (97 + x) as char
}

/// The digit naming rank `y` (rank 0 is written `8`).
pub open spec fn rank_char(y: int) -> char {
    (56 - y) as char
}

/// The decimal rendering of `n`, for `-1000 < n < 1000`.
pub open spec fn dec_chars(n: int) -> Seq<char> {
    let m = if n < 0 {
        -n
    } else {
        n
    };
    let digits = if m >= 100 {
        seq![digit_char(m / 100), digit_char((m / 10) % 10), digit_char(m % 10)]
    } else if m >= 10 {
        seq![digit_char(m / 10), digit_char(m % 10)]
    } else {
        seq![digit_char(m)]
    };
    if n < 0 {
        seq!['-'] + digits
    } else {
        digits
    }
}

/// The digit character of `d`.
pub open spec fn digit_char(d: int) -> char {
    (48 + d) as char
}

/// One-character slice of the file letters, for file `x`.
fn file_str(x: usize) -> (r: &'static str)
    requires
        x < 8,
    ensures
        r@ =~= seq![file_char(x as int)],
{
    let letters = "abcdefgh";
    proof {
        reveal_strlit("abcdefgh");
    }
    let s = letters.substring_ascii(x, x + 1);
    proof {
        assert(s@ =~= seq![file_char(x as int)]);
    }
    s
}

/// One-character slice of the digits, for digit value `d`.
fn digit_str(d: usize) -> (r: &'static str)
    requires
        d < 10,
    ensures
        r@ =~= seq![digit_char(d as int)],
{
    let digits = "0123456789";
    proof {
        reveal_strlit("0123456789");
    }
    let s = digits.substring_ascii(d, d + 1);
    proof {
        assert(s@ =~= seq![digit_char(d as int)]);
    }
    s
}

/// Reads a square from the first two characters of move text: the file
/// letter relative to `a`, and the rank digit subtracted from `8`.  The
/// result may lie off the board; the caller bounds-checks it.
pub fn move2loc(input: &str) -> (r: (i8, i8))
    requires
        input@.len() >= 2,
        input@[0] as int <= 127,
        input@[1] as int <= 127,
    ensures
        r.0 as int == input@[0] as int - 97,
        r.1 as int == 8 - (input@[1] as int - 48),
{
    let c0 = input.get_char(0);
    let c1 = input.get_char(1);
    let a0: i8 = (c0 as u32) as i8;
    let a1: i8 = (c1 as u32) as i8;
    (a0 - 97, 8 - (a1 - 48))
}

/// Relies on String::push: appends exactly the one character.
#[verifier::external_body]
fn push_char(s: &mut String, c: char)
    ensures
        final(s)@ == old(s)@.push(c),
{
    s.push(c);
}

/// Writes a possibly off-board square the way `move2loc` read it: the
/// file letter, then `8` minus the rank as a decimal number.
pub fn debugloc2move(loc: (i8, i8)) -> (r: String)
    requires
        0 <= loc.0 as int + 97 <= 255,
    ensures
        r@ == seq![(97 + loc.0) as char] + dec_chars(8 - loc.1),
{
    let mut s = String::new();
    let code: i16 = 97 + loc.0 as i16;
    push_char(&mut s, (code as u8) as char);
    proof {
        assert(((code as u8) as char) == (97 + loc.0) as char);
    }
    let n: i16 = 8 - (loc.1 as i16);
    let mut m: u16 = if n < 0 {
        s.append("-");
        proof {
            reveal_strlit("-");
        }
        (-n) as u16
    } else {
        n as u16
    };
    if m >= 100 {
        s.append(digit_str((m / 100) as usize));
        s.append(digit_str(((m / 10) % 10) as usize));
        s.append(digit_str((m % 10) as usize));
    } else if m >= 10 {
        s.append(digit_str((m / 10) as usize));
        s.append(digit_str((m % 10) as usize));
    } else {
        s.append(digit_str(m as usize));
    }
    proof {
        assert(s@ =~= seq![(97 + loc.0) as char] + dec_chars(8 - loc.1));
    }
    s
}

/// The ANSI bold escape opening text of color `c`.
pub open spec fn ansi_prefix(c: Color) -> Seq<char> {
    match c {
        Color::Black => "\x1b[30;1m"@,
        Color::White => "\x1b[37;1m"@,
    }
}

/// The display name of a color.
pub open spec fn color_name(c: Color) -> Seq<char> {
    match c {
        Color::Black => "Black"@,
        Color::White => "White"@,
    }
}

/// The letter standing for a piece kind.
pub open spec fn kind_glyph(k: PieceKind) -> Seq<char> {
    match k {
        PieceKind::Pawn => "P"@,
        PieceKind::Knight => "N"@,
        PieceKind::Bishop => "B"@,
        PieceKind::Rook => "R"@,
        PieceKind::Queen => "Q"@,
        PieceKind::King => "K"@,
    }
}

impl Color {
    /// Wraps `input` in this color's ANSI bold escape, ended by a reset.
    pub fn color(&self, input: &str) -> (r: String)
        ensures
            r@ == ansi_prefix(*self) + input@ + "\x1b[0m"@,
    {
        let pre: &'static str = match self {
            Color::Black => "\x1b[30;1m",
            Color::White => "\x1b[37;1m",
        };
        String::from_str(pre).concat(input).concat("\x1b[0m")
    }

    /// The color's display name.
    pub fn to_string(&self) -> (r: String)
        ensures
            r@ == color_name(*self),
    {
        match self {
            Color::Black => String::from_str("Black"),
            Color::White => String::from_str("White"),
        }
    }
}

impl PieceKind {
    /// The kind's one-letter glyph.
    pub fn to_string(&self) -> (r: String)
        ensures
            r@ == kind_glyph(*self),
    {
        match self {
            PieceKind::Pawn => String::from_str("P"),
            PieceKind::Knight => String::from_str("N"),
            PieceKind::Bishop => String::from_str("B"),
            PieceKind::Rook => String::from_str("R"),
            PieceKind::Queen => String::from_str("Q"),
            PieceKind::King => String::from_str("K"),
        }
    }
}

impl Piece {
    /// The piece's glyph, wrapped in its color's escape.
    pub fn to_string(&self) -> (r: String)
        ensures
            r@ == ansi_prefix(self.color) + kind_glyph(self.kind) + "\x1b[0m"@,
    {
        let glyph = self.kind.to_string();
        self.color.color(glyph.as_str())
    }
}

/// Writes an on-board square in algebraic form: file letter, rank digit.
pub fn loc2move(loc: Location) -> (r: String)
    requires
        on_board(loc.0 as int, loc.1 as int),
    ensures
        r@ == seq![file_char(loc.0 as int), rank_char(loc.1 as int)],
{
    let mut s = String::new();
    s.append(file_str(loc.0));
    s.append(digit_str(8 - loc.1));
    proof {
        assert(digit_char(8 - loc.1 as int) == rank_char(loc.1 as int));
        assert(s@ =~= seq![file_char(loc.0 as int), rank_char(loc.1 as int)]);
    }
    s
}

} // verus!
