//! The vocabulary shared by every module: sides, piece types and squares.

use vstd::prelude::*;

verus! {

/// One of the two sides of a game.
#[derive(Clone, Copy, Debug, PartialEq, Eq, Structural)]
pub enum Color {
    White,
    Black,
}

impl Color {
    /// The number the rules engine knows this side by.
    pub open spec fn code(self) -> int {
        match self {
            Color::White => 0,
            Color::Black => 1,
        }
    }

    /// The other side.
    pub open spec fn opponent(self) -> Color {
        match self {
            Color::White => Color::Black,
            Color::Black => Color::White,
        }
    }

    /// The other side.
    pub fn opposite(self) -> (r: Color)
        ensures
            r == self.opponent(),
    {
        match self {
            Color::White => Color::Black,
            Color::Black => Color::White,
        }
    }
}

/// The six kinds of chess piece.
#[derive(Clone, Copy, Debug, PartialEq, Eq, Structural)]
pub enum PieceType {
    Pawn,
    Knight,
    Bishop,
    Rook,
    Queen,
    King,
}

impl PieceType {
    /// The number the rules engine knows this piece type by.
    pub open spec fn code(self) -> int {
        match self {
            PieceType::Pawn => 0,
            PieceType::Knight => 1,
            PieceType::Bishop => 2,
            PieceType::Rook => 3,
            PieceType::Queen => 4,
            PieceType::King => 5,
        }
    }

    /// The number the rules engine knows this piece type by.
    pub fn index(self) -> (r: u8)
        ensures
            r == self.code(),
            r < 6,
    {
        match self {
            PieceType::Pawn => 0,
            PieceType::Knight => 1,
            PieceType::Bishop => 2,
            PieceType::Rook => 3,
            PieceType::Queen => 4,
            PieceType::King => 5,
        }
    }

    /// Whether a pawn may be promoted to this piece type.
    pub open spec fn is_promotion_target(self) -> bool {
        self == PieceType::Queen || self == PieceType::Rook || self == PieceType::Bishop
            || self == PieceType::Knight
    }
}

/// A square of the board, by file (`0` is the a-file) and rank (`0` is the
/// first rank).
#[derive(Clone, Copy, Debug, PartialEq, Eq, Structural)]
pub struct Square {
    pub file: u8,
    pub rank: u8,
}

impl Square {
    /// Both coordinates lie on the board.
    pub open spec fn wf(self) -> bool {
        self.file < 8 && self.rank < 8
    }

    /// The number of the square, counting a1, b1, ..., h1, a2, ..., h8 from 0.
    pub open spec fn number(self) -> int {
        self.rank * 8 + self.file
    }

    /// The square with the given number.
    pub open spec fn numbered(n: int) -> Square {
        Square { file: (n % 8) as u8, rank: (n / 8) as u8 }
    }

    /// The square with the given coordinates, if they lie on the board.
    pub fn new(file: u8, rank: u8) -> (r: Option<Square>)
        ensures
            r == (if file < 8 && rank < 8 {
                Some(Square { file, rank })
            } else {
                None
            }),
            r matches Some(square) ==> square.wf(),
    {
        if file < 8 && rank < 8 {
            Some(Square { file, rank })
        } else {
            None
        }
    }

    /// The number of the square, counting a1, b1, ..., h1, a2, ..., h8 from 0.
    pub fn index(self) -> (r: u8)
        requires
            self.wf(),
        ensures
            r == self.number(),
            r < 64,
    {
        self.rank * 8 + self.file
    }

    /// The square with the given number.
    pub fn from_index(n: u8) -> (r: Square)
        requires
            n < 64,
        ensures
            r == Square::numbered(n as int),
            r.wf(),
            r.number() == n,
    {
        Square { file: n % 8, rank: n / 8 }
    }

    /// The square named by a file letter `a` to `h` and a rank digit `1` to
    /// `8`, if the two characters are such.
    pub fn from_chars(file: char, rank: char) -> (r: Option<Square>)
        ensures
            r == Square::named(file, rank),
            r matches Some(sq) ==> sq.wf(),
    {
        if 'a' <= file && file <= 'h' && '1' <= rank && rank <= '8' {
            Some(Square { file: (file as u8) - 97, rank: (rank as u8) - 49 })
        } else {
            None
        }
    }

    /// The square named by a file letter and a rank digit.
    pub open spec fn named(file: char, rank: char) -> Option<Square> {
        if 'a' <= file <= 'h' && '1' <= rank <= '8' {
            Some(Square { file: (file as u8 - 97) as u8, rank: (rank as u8 - 49) as u8 })
        } else {
            None
        }
    }
}

/// Every square on the board is the one its own number names.
pub proof fn lemma_square_numbering(sq: Square)
    requires
        sq.wf(),
    ensures
        0 <= sq.number() < 64,
        Square::numbered(sq.number()) == sq,
{
}

} // verus!
