//! Short algebraic notation: what a written move says, before any board is
//! consulted.
//!
//! A written move is either one of the two castling words or a string of up
//! to six parts in a fixed order: an origin (a file letter, a rank digit, or
//! both), a piece letter, a capture mark, the destination square, a promotion
//! suffix and a check mark. Only the destination is mandatory. [`MoveText`]
//! holds the parts, [`MoveText::text`] writes them out, and [`parse`] accepts
//! exactly the strings that some well-formed [`MoveText`] writes.

use vstd::prelude::*;
use vstd::string::StrSliceExecFns;
use crate::pieces::{PieceType, Square};

verus! {

/// The two ways to castle.
#[derive(Clone, Copy, Debug, PartialEq, Eq, Structural)]
pub enum CastleSide {
    Kingside,
    Queenside,
}

/// Why a string is not a move.
#[derive(Clone, Copy, Debug, PartialEq, Eq, Structural)]
pub enum NotationError {
    /// The string is neither a castling word nor of the shape of a move.
    MalformedMove,
    /// A pawn reaches the first or last rank and the string names no piece
    /// to promote it to.
    MissingPromotion,
}

/// What a written move says of the square the piece comes from: nothing, a
/// file, a rank, or both.
#[derive(Clone, Copy, Debug, PartialEq, Eq, Structural)]
pub struct Origin {
    pub file: Option<u8>,
    pub rank: Option<u8>,
}

impl Origin {
    /// The coordinates that are given lie on the board.
    pub open spec fn wf(self) -> bool {
        &&& self.file matches Some(f) ==> f < 8
        &&& self.rank matches Some(r) ==> r < 8
    }

    /// The origin square, where both its file and its rank are given.
    pub open spec fn whole(self) -> Option<Square> {
        match (self.file, self.rank) {
            (Some(file), Some(rank)) => Some(Square { file, rank }),
            _ => None,
        }
    }

    /// Whether a square agrees with what is given.
    pub open spec fn admits(self, square: Square) -> bool {
        &&& self.file matches Some(f) ==> square.file == f
        &&& self.rank matches Some(r) ==> square.rank == r
    }

    /// The origin square, where both its file and its rank are given.
    pub fn square(&self) -> (r: Option<Square>)
        ensures
            r == self.whole(),
    {
        match (self.file, self.rank) {
            (Some(file), Some(rank)) => Some(Square { file, rank }),
            _ => None,
        }
    }

    /// Whether a square agrees with what is given.
    pub fn agrees_with(&self, square: Square) -> (r: bool)
        ensures
            r == self.admits(square),
    {
        let file_ok = match self.file {
            Some(f) => square.file == f,
            None => true,
        };
        let rank_ok = match self.rank {
            Some(r) => square.rank == r,
            None => true,
        };
        file_ok && rank_ok
    }
}

/// The intent of a written move, not yet held against a board.
#[derive(Clone, Copy, Debug, PartialEq, Eq, Structural)]
pub enum PartialMove {
    /// One of the castling words. Which squares the king leaves and reaches
    /// depends on the side to move, which the notation does not carry.
    Castle(CastleSide),
    /// A move of a piece to a named square.
    Piece {
        piece_type: PieceType,
        origin: Origin,
        destination_square: Square,
        promotion_piece: Option<PieceType>,
    },
}

impl PartialMove {
    /// The squares lie on the board, and a promotion piece is present exactly
    /// for a pawn that reaches the first or last rank.
    pub open spec fn wf(self) -> bool {
        match self {
            PartialMove::Castle(_) => true,
            PartialMove::Piece { piece_type, origin, destination_square, promotion_piece } => {
                &&& origin.wf()
                &&& destination_square.wf()
                &&& promotion_piece matches Some(p) ==> p.is_promotion_target()
                &&& promotion_piece is Some <==> reaches_promotion_rank(
                    piece_type,
                    destination_square,
                )
            },
        }
    }
}

/// Whether a piece of this type arriving on this square is a pawn on the
/// first or last rank.
pub open spec fn reaches_promotion_rank(piece: PieceType, destination: Square) -> bool {
    piece == PieceType::Pawn && (destination.rank == 0 || destination.rank == 7)
}

/// The parts of a written move other than a castling word.
#[derive(Clone, Copy, Debug, PartialEq, Eq, Structural)]
pub struct MoveText {
    pub origin: Origin,
    /// The piece named by letter; a pawn where no letter is written.
    pub piece: PieceType,
    pub capture: bool,
    pub destination: Square,
    pub promotion: Option<PieceType>,
    /// `+` or `#`, where one is written.
    pub check: Option<char>,
}

/// The letter of a file.
pub open spec fn file_letter(file: u8) -> char {
    (file + 97) as char
}

/// The digit of a rank.
pub open spec fn rank_digit(rank: u8) -> char {
    (rank + 49) as char
}

/// The file that a letter `a` to `h` names.
pub open spec fn file_of(c: char) -> Option<u8> {
    if 'a' <= c <= 'h' {
        Some((c as u8 - 97) as u8)
    } else {
        None
    }
}

/// The rank that a digit `1` to `8` names.
pub open spec fn rank_of(c: char) -> Option<u8> {
    if '1' <= c <= '8' {
        Some((c as u8 - 49) as u8)
    } else {
        None
    }
}

/// The piece that an upper-case letter names. A pawn has no letter.
pub open spec fn piece_of(c: char) -> Option<PieceType> {
    if c == 'N' {
        Some(PieceType::Knight)
    } else if c == 'K' {
        Some(PieceType::King)
    } else if c == 'Q' {
        Some(PieceType::Queen)
    } else if c == 'B' {
        Some(PieceType::Bishop)
    } else if c == 'R' {
        Some(PieceType::Rook)
    } else {
        None
    }
}

/// The letter that names a piece other than a pawn.
pub open spec fn piece_letter(piece: PieceType) -> char {
    match piece {
        PieceType::Knight => 'N',
        PieceType::King => 'K',
        PieceType::Queen => 'Q',
        PieceType::Bishop => 'B',
        _ => 'R',
    }
}

/// The word for castling on the king's side.
pub open spec fn kingside_word() -> Seq<char> {
    seq!['O', '-', 'O']
}

/// The word for castling on the queen's side.
pub open spec fn queenside_word() -> Seq<char> {
    seq!['O', '-', 'O', '-', 'O']
}

impl MoveText {
    /// The coordinates lie on the board, the promotion piece is one a pawn
    /// may become, and the check mark is `+` or `#`.
    pub open spec fn wf(self) -> bool {
        &&& self.origin.wf()
        &&& self.destination.wf()
        &&& self.promotion matches Some(p) ==> p.is_promotion_target()
        &&& self.check matches Some(c) ==> c == '+' || c == '#'
    }

    /// The origin as written: a file letter, a rank digit, both, or nothing.
    pub open spec fn origin_text(self) -> Seq<char> {
        (match self.origin.file {
            Some(f) => seq![file_letter(f)],
            None => Seq::<char>::empty(),
        }) + (match self.origin.rank {
            Some(r) => seq![rank_digit(r)],
            None => Seq::<char>::empty(),
        })
    }

    /// The piece as written: its letter, or nothing for a pawn.
    pub open spec fn piece_text(self) -> Seq<char> {
        if self.piece == PieceType::Pawn {
            Seq::<char>::empty()
        } else {
            seq![piece_letter(self.piece)]
        }
    }

    /// The capture mark as written.
    pub open spec fn capture_text(self) -> Seq<char> {
        if self.capture {
            seq!['x']
        } else {
            Seq::<char>::empty()
        }
    }

    /// The destination as written: its file letter and rank digit.
    pub open spec fn destination_text(self) -> Seq<char> {
        seq![file_letter(self.destination.file), rank_digit(self.destination.rank)]
    }

    /// The promotion suffix as written: `=` and the letter of the piece.
    pub open spec fn promotion_text(self) -> Seq<char> {
        match self.promotion {
            Some(p) => seq!['=', piece_letter(p)],
            None => Seq::<char>::empty(),
        }
    }

    /// The check mark as written.
    pub open spec fn check_text(self) -> Seq<char> {
        match self.check {
            Some(c) => seq![c],
            None => Seq::<char>::empty(),
        }
    }

    /// The move as written: its parts in their order.
    pub open spec fn text(self) -> Seq<char> {
        self.origin_text() + self.piece_text() + self.capture_text() + self.destination_text()
            + self.promotion_text() + self.check_text()
    }

    /// Whether the move is a pawn's that reaches the first or last rank.
    pub open spec fn promotes(self) -> bool {
        reaches_promotion_rank(self.piece, self.destination)
    }

    /// What the written move means: an error where a promoting pawn names no
    /// piece, else the intent. A promotion suffix on a move that does not
    /// promote, like the capture and check marks, carries no meaning.
    pub open spec fn meaning(self) -> Result<PartialMove, NotationError> {
        if self.promotes() && self.promotion is None {
            Err(NotationError::MissingPromotion)
        } else {
            Ok(
                PartialMove::Piece {
                    piece_type: self.piece,
                    origin: self.origin,
                    destination_square: self.destination,
                    promotion_piece: if self.promotes() {
                        self.promotion
                    } else {
                        None
                    },
                },
            )
        }
    }
}

/// Whether some well-formed move is written as the string.
pub open spec fn is_move_text(s: Seq<char>) -> bool {
    exists|m: MoveText| m.wf() && #[trigger] m.text() == s
}

/// What a string means as a move.
pub open spec fn notation_meaning(s: Seq<char>) -> Result<PartialMove, NotationError> {
    if s == kingside_word() {
        Ok(PartialMove::Castle(CastleSide::Kingside))
    } else if s == queenside_word() {
        Ok(PartialMove::Castle(CastleSide::Queenside))
    } else if is_move_text(s) {
        (choose|m: MoveText| m.wf() && #[trigger] m.text() == s).meaning()
    } else {
        Err(NotationError::MalformedMove)
    }
}

/// The check mark at the end of a string, and the string without it.
spec fn strip_check(s: Seq<char>) -> (Seq<char>, Option<char>) {
    if s.len() >= 1 && (s[s.len() - 1] == '+' || s[s.len() - 1] == '#') {
        (s.subrange(0, s.len() - 1), Some(s[s.len() - 1]))
    } else {
        (s, None)
    }
}

/// The piece that the letter of a promotion suffix names.
spec fn promotion_of(c: char) -> Option<PieceType> {
    if c == 'Q' || c == 'R' || c == 'N' || c == 'B' {
        piece_of(c)
    } else {
        None
    }
}

/// The promotion suffix at the end of a string, and the string without it;
/// nothing where `=` is followed by another letter than a promotion piece's.
spec fn strip_promotion(s: Seq<char>) -> Option<(Seq<char>, Option<PieceType>)> {
    if s.len() >= 2 && s[s.len() - 2] == '=' {
        match promotion_of(s[s.len() - 1]) {
            Some(p) => Some((s.subrange(0, s.len() - 2), Some(p))),
            None => None,
        }
    } else {
        Some((s, None))
    }
}

/// The square at the end of a string, and the string without it.
spec fn strip_destination(s: Seq<char>) -> Option<(Seq<char>, Square)> {
    if s.len() >= 2 {
        match Square::named(s[s.len() - 2], s[s.len() - 1]) {
            Some(square) => Some((s.subrange(0, s.len() - 2), square)),
            None => None,
        }
    } else {
        None
    }
}

/// The capture mark at the end of a string, and the string without it.
spec fn strip_capture(s: Seq<char>) -> (Seq<char>, bool) {
    if s.len() >= 1 && s[s.len() - 1] == 'x' {
        (s.subrange(0, s.len() - 1), true)
    } else {
        (s, false)
    }
}

/// The piece letter at the end of a string, and the string without it.
spec fn strip_piece(s: Seq<char>) -> (Seq<char>, PieceType) {
    if s.len() >= 1 && piece_of(s[s.len() - 1]) is Some {
        (s.subrange(0, s.len() - 1), piece_of(s[s.len() - 1])->0)
    } else {
        (s, PieceType::Pawn)
    }
}

/// The origin that a whole string writes.
spec fn read_origin(s: Seq<char>) -> Option<Origin> {
    if s.len() == 0 {
        Some(Origin { file: None, rank: None })
    } else if s.len() == 1 {
        if file_of(s[0]) is Some {
            Some(Origin { file: file_of(s[0]), rank: None })
        } else if rank_of(s[0]) is Some {
            Some(Origin { file: None, rank: rank_of(s[0]) })
        } else {
            None
        }
    } else if s.len() == 2 && file_of(s[0]) is Some && rank_of(s[1]) is Some {
        Some(Origin { file: file_of(s[0]), rank: rank_of(s[1]) })
    } else {
        None
    }
}

/// The parts of a string read from its end: the one way to take a string
/// apart that [`MoveText::text`] can have put together.
spec fn decode(s: Seq<char>) -> Option<MoveText> {
    let (s1, check) = strip_check(s);
    match strip_promotion(s1) {
        None => None,
        Some((s2, promotion)) => match strip_destination(s2) {
            None => None,
            Some((s3, destination)) => {
                let (s4, capture) = strip_capture(s3);
                let (s5, piece) = strip_piece(s4);
                match read_origin(s5) {
                    None => None,
                    Some(origin) => Some(
                        MoveText { origin, piece, capture, destination, promotion, check },
                    ),
                }
            },
        },
    }
}

/// What is read from a string is well formed and writes that string.
proof fn lemma_decode_sound(s: Seq<char>)
    requires
        decode(s) is Some,
    ensures
        decode(s)->0.wf(),
        decode(s)->0.text() == s,
{
    let m = decode(s)->0;
    let (s1, check) = strip_check(s);
    let (s2, promotion) = strip_promotion(s1)->0;
    let (s3, destination) = strip_destination(s2)->0;
    let (s4, capture) = strip_capture(s3);
    let (s5, piece) = strip_piece(s4);
    assert(s1 + m.check_text() =~= s);
    assert(s2 + m.promotion_text() =~= s1);
    assert(s3 + m.destination_text() =~= s2);
    assert(s4 + m.capture_text() =~= s3);
    assert(s5 + m.piece_text() =~= s4);
    assert(m.origin_text() =~= s5);
    assert(m.text() =~= s);
}

/// The check mark comes off the end of what precedes it.
proof fn lemma_strip_check(m: MoveText, body: Seq<char>)
    requires
        m.wf(),
        body.len() >= 1,
        body[body.len() - 1] != '+',
        body[body.len() - 1] != '#',
    ensures
        strip_check(body + m.check_text()) == (body, m.check),
{
    let s = body + m.check_text();
    if m.check is Some {
        assert(s.subrange(0, s.len() - 1) =~= body);
    } else {
        assert(s =~= body);
    }
}

/// The promotion suffix comes off the end of what precedes it.
proof fn lemma_strip_promotion(m: MoveText, body: Seq<char>)
    requires
        m.wf(),
        body.len() >= 2,
        body[body.len() - 2] != '=',
    ensures
        strip_promotion(body + m.promotion_text()) == Some((body, m.promotion)),
{
    let s = body + m.promotion_text();
    if m.promotion is Some {
        assert(s.subrange(0, s.len() - 2) =~= body);
        assert(s[s.len() - 2] == '=');
        assert(s[s.len() - 1] == piece_letter(m.promotion->0));
    } else {
        assert(s =~= body);
    }
}

/// The destination comes off the end of what precedes it.
proof fn lemma_strip_destination(m: MoveText, body: Seq<char>)
    requires
        m.wf(),
    ensures
        strip_destination(body + m.destination_text()) == Some((body, m.destination)),
{
    let s = body + m.destination_text();
    assert(s.subrange(0, s.len() - 2) =~= body);
    assert(s[s.len() - 2] == file_letter(m.destination.file));
    assert(s[s.len() - 1] == rank_digit(m.destination.rank));
}

/// The capture mark comes off the end of what precedes it.
proof fn lemma_strip_capture(m: MoveText, body: Seq<char>)
    requires
        body.len() >= 1 ==> body[body.len() - 1] != 'x',
    ensures
        strip_capture(body + m.capture_text()) == (body, m.capture),
{
    let s = body + m.capture_text();
    if m.capture {
        assert(s.subrange(0, s.len() - 1) =~= body);
    } else {
        assert(s =~= body);
    }
}

/// The piece letter comes off the end of what precedes it.
proof fn lemma_strip_piece(m: MoveText, body: Seq<char>)
    requires
        body.len() >= 1 ==> piece_of(body[body.len() - 1]) is None,
    ensures
        strip_piece(body + m.piece_text()) == (body, m.piece),
{
    let s = body + m.piece_text();
    if m.piece != PieceType::Pawn {
        assert(s.subrange(0, s.len() - 1) =~= body);
        assert(s[s.len() - 1] == piece_letter(m.piece));
    } else {
        assert(s =~= body);
    }
}

/// The origin is read back from what it writes, which ends in no capture
/// mark and no piece letter.
proof fn lemma_read_origin(m: MoveText)
    requires
        m.wf(),
    ensures
        read_origin(m.origin_text()) == Some(m.origin),
        m.origin_text().len() <= 2,
        m.origin_text().len() >= 1 ==> {
            let last = m.origin_text()[m.origin_text().len() - 1];
            last != 'x' && piece_of(last) is None
        },
{
}

/// A well-formed move is read back from what it writes.
proof fn lemma_decode_complete(m: MoveText)
    requires
        m.wf(),
    ensures
        decode(m.text()) == Some(m),
{
    let s5 = m.origin_text();
    let s4 = s5 + m.piece_text();
    let s3 = s4 + m.capture_text();
    let s2 = s3 + m.destination_text();
    let s1 = s2 + m.promotion_text();
    let s = s1 + m.check_text();
    lemma_read_origin(m);
    lemma_strip_piece(m, s5);
    assert(s4.len() >= 1 ==> s4[s4.len() - 1] != 'x') by {
        if m.piece == PieceType::Pawn {
            assert(s4 =~= s5);
        }
    }
    lemma_strip_capture(m, s4);
    lemma_strip_destination(m, s3);
    assert(s2.len() >= 2 && s2[s2.len() - 2] == file_letter(m.destination.file) && s2[s2.len()
        - 1] == rank_digit(m.destination.rank));
    lemma_strip_promotion(m, s2);
    assert(s1.len() >= 1 && s1[s1.len() - 1] != '+' && s1[s1.len() - 1] != '#') by {
        if m.promotion is None {
            assert(s1 =~= s2);
        }
    }
    lemma_strip_check(m, s1);
}

/// No string is written by two different well-formed moves: a move is read
/// in one way only.
pub proof fn lemma_move_text_unique(a: MoveText, b: MoveText)
    requires
        a.wf(),
        b.wf(),
        a.text() == b.text(),
    ensures
        a == b,
{
    lemma_decode_complete(a);
    lemma_decode_complete(b);
}

/// A written move has at least two and at most nine characters, none of
/// which is the letter of a castling word.
pub proof fn lemma_move_text_shape(m: MoveText)
    requires
        m.wf(),
    ensures
        2 <= m.text().len() <= 9,
        m.text() != kingside_word(),
        m.text() != queenside_word(),
{
    let s = m.text();
    lemma_decode_complete(m);
    if s == kingside_word() || s == queenside_word() {
        assert(decode(s) is None);
    }
}

/// The file that a letter `a` to `h` names.
fn file_of_char(c: char) -> (r: Option<u8>)
    ensures
        r == file_of(c),
        r matches Some(f) ==> f < 8,
{
    if 'a' <= c && c <= 'h' {
        Some((c as u8) - 97)
    } else {
        None
    }
}

/// The rank that a digit `1` to `8` names.
fn rank_of_char(c: char) -> (r: Option<u8>)
    ensures
        r == rank_of(c),
        r matches Some(f) ==> f < 8,
{
    if '1' <= c && c <= '8' {
        Some((c as u8) - 49)
    } else {
        None
    }
}

/// The piece that an upper-case letter names.
fn piece_of_char(c: char) -> (r: Option<PieceType>)
    ensures
        r == piece_of(c),
{
    if c == 'N' {
        Some(PieceType::Knight)
    } else if c == 'K' {
        Some(PieceType::King)
    } else if c == 'Q' {
        Some(PieceType::Queen)
    } else if c == 'B' {
        Some(PieceType::Bishop)
    } else if c == 'R' {
        Some(PieceType::Rook)
    } else {
        None
    }
}

/// The origin that the first `end` characters write.
fn read_origin_chars(chars: &Vec<char>, end: usize) -> (r: Option<Origin>)
    requires
        end <= chars.len(),
    ensures
        r == read_origin(chars@.subrange(0, end as int)),
{
    if end == 0 {
        Some(Origin { file: None, rank: None })
    } else if end == 1 {
        let file = file_of_char(chars[0]);
        let rank = rank_of_char(chars[0]);
        if file.is_some() {
            Some(Origin { file, rank: None })
        } else if rank.is_some() {
            Some(Origin { file: None, rank })
        } else {
            None
        }
    } else if end == 2 {
        let file = file_of_char(chars[0]);
        let rank = rank_of_char(chars[1]);
        if file.is_some() && rank.is_some() {
            Some(Origin { file, rank })
        } else {
            None
        }
    } else {
        None
    }
}

/// The check mark at the end of the first `end` characters, and where it
/// starts.
fn take_check(chars: &Vec<char>, end: usize) -> (r: (usize, Option<char>))
    requires
        end <= chars.len(),
    ensures
        r.0 <= end,
        strip_check(chars@.subrange(0, end as int)) == (chars@.subrange(0, r.0 as int), r.1),
{
    let ghost s = chars@.subrange(0, end as int);
    if end >= 1 && (chars[end - 1] == '+' || chars[end - 1] == '#') {
        assert(s.subrange(0, end - 1) =~= chars@.subrange(0, end - 1));
        (end - 1, Some(chars[end - 1]))
    } else {
        (end, None)
    }
}

/// The promotion suffix at the end of the first `end` characters, and where
/// it starts.
fn take_promotion(chars: &Vec<char>, end: usize) -> (r: Option<(usize, Option<PieceType>)>)
    requires
        end <= chars.len(),
    ensures
        r matches Some(found) ==> found.0 <= end,
        strip_promotion(chars@.subrange(0, end as int)) == (match r {
            Some(found) => Some((chars@.subrange(0, found.0 as int), found.1)),
            None => None,
        }),
{
    let ghost s = chars@.subrange(0, end as int);
    if end >= 2 && chars[end - 2] == '=' {
        let letter = chars[end - 1];
        if letter == 'Q' || letter == 'R' || letter == 'N' || letter == 'B' {
            assert(s.subrange(0, end - 2) =~= chars@.subrange(0, end - 2));
            Some((end - 2, piece_of_char(letter)))
        } else {
            None
        }
    } else {
        Some((end, None))
    }
}

/// The square at the end of the first `end` characters, and where it starts.
fn take_destination(chars: &Vec<char>, end: usize) -> (r: Option<(usize, Square)>)
    requires
        end <= chars.len(),
    ensures
        r matches Some(found) ==> found.0 <= end && found.1.wf(),
        strip_destination(chars@.subrange(0, end as int)) == (match r {
            Some(found) => Some((chars@.subrange(0, found.0 as int), found.1)),
            None => None,
        }),
{
    let ghost s = chars@.subrange(0, end as int);
    if end >= 2 {
        match Square::from_chars(chars[end - 2], chars[end - 1]) {
            Some(square) => {
                assert(s.subrange(0, end - 2) =~= chars@.subrange(0, end - 2));
                Some((end - 2, square))
            },
            None => None,
        }
    } else {
        None
    }
}

/// The capture mark at the end of the first `end` characters, and where it
/// starts.
fn take_capture(chars: &Vec<char>, end: usize) -> (r: (usize, bool))
    requires
        end <= chars.len(),
    ensures
        r.0 <= end,
        strip_capture(chars@.subrange(0, end as int)) == (chars@.subrange(0, r.0 as int), r.1),
{
    let ghost s = chars@.subrange(0, end as int);
    if end >= 1 && chars[end - 1] == 'x' {
        assert(s.subrange(0, end - 1) =~= chars@.subrange(0, end - 1));
        (end - 1, true)
    } else {
        (end, false)
    }
}

/// The piece letter at the end of the first `end` characters, and where it
/// starts.
fn take_piece(chars: &Vec<char>, end: usize) -> (r: (usize, PieceType))
    requires
        end <= chars.len(),
    ensures
        r.0 <= end,
        strip_piece(chars@.subrange(0, end as int)) == (chars@.subrange(0, r.0 as int), r.1),
{
    let ghost s = chars@.subrange(0, end as int);
    if end >= 1 {
        match piece_of_char(chars[end - 1]) {
            Some(named) => {
                assert(s.subrange(0, end - 1) =~= chars@.subrange(0, end - 1));
                (end - 1, named)
            },
            None => (end, PieceType::Pawn),
        }
    } else {
        (end, PieceType::Pawn)
    }
}

/// The parts of a written move, read from the end of the string.
fn read_move_text(chars: &Vec<char>) -> (r: Option<MoveText>)
    ensures
        r == decode(chars@),
{
    assert(chars@.subrange(0, chars.len() as int) =~= chars@);
    let (end, check) = take_check(chars, chars.len());
    let (end, promotion) = match take_promotion(chars, end) {
        Some(found) => found,
        None => {
            return None;
        },
    };
    let (end, destination) = match take_destination(chars, end) {
        Some(found) => found,
        None => {
            return None;
        },
    };
    let (end, capture) = take_capture(chars, end);
    let (end, piece) = take_piece(chars, end);
    match read_origin_chars(chars, end) {
        Some(origin) => Some(MoveText { origin, piece, capture, destination, promotion, check }),
        None => None,
    }
}

/// The characters of a string of the given length.
fn chars_of(input: &str, n: usize) -> (chars: Vec<char>)
    requires
        n == input@.len(),
    ensures
        chars@ == input@,
{
    let mut chars: Vec<char> = Vec::new();
    let mut i: usize = 0;
    while i < n
        invariant
            i <= n,
            n == input@.len(),
            chars@ == input@.subrange(0, i as int),
        decreases n - i,
    {
        chars.push(input.get_char(i));
        i += 1;
        assert(chars@ =~= input@.subrange(0, i as int));
    }
    assert(input@.subrange(0, n as int) =~= input@);
    chars
}

/// Reads a move in short algebraic notation.
///
/// The two castling words are read as such. Any other string is read as a
/// move if and only if it is what some well-formed [`MoveText`] writes, from
/// its first character to its last; that move is then unique, and the result
/// is its [`MoveText::meaning`]. Everything else is malformed.
pub fn parse(input: &str) -> (r: Result<PartialMove, NotationError>)
    ensures
        r == notation_meaning(input@),
        r matches Ok(m) ==> m.wf(),
{
    let n = input.unicode_len();
    if n > 9 {
        proof {
            lemma_meaning_by_decode(input@);
            if decode(input@) is Some {
                lemma_decode_sound(input@);
                lemma_move_text_shape(decode(input@)->0);
            }
        }
        return Err(NotationError::MalformedMove);
    }
    let chars = chars_of(input, n);
    proof {
        lemma_meaning_by_decode(input@);
    }
    if n == 3 && chars[0] == 'O' && chars[1] == '-' && chars[2] == 'O' {
        assert(chars@ =~= kingside_word());
        return Ok(PartialMove::Castle(CastleSide::Kingside));
    }
    if n == 5 && chars[0] == 'O' && chars[1] == '-' && chars[2] == 'O' && chars[3] == '-'
        && chars[4] == 'O' {
        assert(chars@ =~= queenside_word());
        return Ok(PartialMove::Castle(CastleSide::Queenside));
    }
    match read_move_text(&chars) {
        None => Err(NotationError::MalformedMove),
        Some(m) => {
            proof {
                lemma_decode_sound(input@);
            }
            let promotes = matches!(m.piece, PieceType::Pawn) && (m.destination.rank == 0
                || m.destination.rank == 7);
            if promotes && m.promotion.is_none() {
                Err(NotationError::MissingPromotion)
            } else {
                Ok(
                    PartialMove::Piece {
                        piece_type: m.piece,
                        origin: m.origin,
                        destination_square: m.destination,
                        promotion_piece: if promotes {
                            m.promotion
                        } else {
                            None
                        },
                    },
                )
            }
        },
    }
}

/// The meaning of a string that is no castling word is that of the move read
/// from its end, if one is.
proof fn lemma_meaning_by_decode(s: Seq<char>)
    ensures
        s != kingside_word() && s != queenside_word() ==> notation_meaning(s) == (match decode(s) {
            Some(m) => m.meaning(),
            None => Err(NotationError::MalformedMove),
        }),
{
    if decode(s) is Some {
        lemma_decode_sound(s);
        let m = decode(s)->0;
        assert(m.wf() && m.text() == s);
        let chosen = choose|m: MoveText| m.wf() && #[trigger] m.text() == s;
        lemma_move_text_unique(chosen, m);
    } else {
        assert forall|m: MoveText| m.wf() implies #[trigger] m.text() != s by {
            lemma_decode_complete(m);
        }
    }
}

} // verus!
