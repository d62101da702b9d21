//! The board of a game, kept by the rules engine of the `chess` crate.
//!
//! The engine is not verified. Each question the library puts to it goes
//! through one small function whose contract is taken on trust; the
//! answers are given names, so that the contracts of the library can say
//! which answer decided what. Nothing is assumed of a board that the engine
//! made but what the engine itself says of it: a move counts as legal only if
//! the board it leads to passes the engine's own sanity check.

use vstd::prelude::*;
use crate::pieces::{Color, PieceType, Square};

verus! {

/// The engine's board, carried as a value whose inside Verus does not see.
#[verifier::external_type_specification]
#[verifier::external_body]
pub struct ExBoard(chess::Board);

/// Whether a board passes the engine's own sanity check: what
/// `Board::is_sane` answers. The engine is asked nothing else about a board
/// that does not.
pub uninterp spec fn board_valid(board: chess::Board) -> bool;

/// The text that the engine prints for a board: its Forsyth-Edwards notation.
pub uninterp spec fn board_fen(board: chess::Board) -> Seq<char>;

/// The numbers of the squares that hold a piece of the type with the given
/// code, whatever its colour: what `Board::pieces` marks.
pub uninterp spec fn board_pieces(board: chess::Board, piece: int) -> Set<int>;

/// The colour of the piece on the square with the given number, `0` for
/// white and `1` for black: what `Board::color_on` answers.
pub uninterp spec fn board_color_at(board: chess::Board, square: int) -> Option<int>;

/// Whether the engine calls the move between the two numbered squares, with
/// the promotion given by its piece code, legal: what `Board::legal` answers.
pub uninterp spec fn board_legal(
    board: chess::Board,
    from: int,
    to: int,
    promotion: Option<int>,
) -> bool;

/// The board after the move: what `Board::make_move_new` returns.
pub uninterp spec fn board_after(
    board: chess::Board,
    from: int,
    to: int,
    promotion: Option<int>,
) -> chess::Board;

/// The pieces that give check to the side to move, as the engine's bit set of
/// their squares: what `Board::checkers` holds.
pub uninterp spec fn board_checkers(board: chess::Board) -> int;

/// The text the engine prints for the starting position.
pub open spec fn start_fen() -> Seq<char> {
    "rnbqkbnr/pppppppp/8/8/8/8/PPPPPPPP/RNBQKBNR w KQkq - 0 1"@
}

/// The code of an optional promotion piece.
pub open spec fn promotion_code(promotion: Option<PieceType>) -> Option<int> {
    match promotion {
        Some(piece) => Some(piece.code()),
        None => None,
    }
}

/// A move as the engine takes it: two squares on the board and, for a
/// promotion, a piece code.
pub open spec fn engine_move(from: int, to: int, promotion: Option<int>) -> bool {
    &&& 0 <= from < 64
    &&& 0 <= to < 64
    &&& promotion matches Some(piece) ==> 0 <= piece < 6
}

/// `Board::default` of the engine. Its source parses the text of the
/// starting position and admits the board only after its own sanity check;
/// the engine's tests print the board back to the same text.
#[verifier::external_body]
fn engine_start() -> (board: chess::Board)
    ensures
        board_valid(board),
        board_fen(board) == start_fen(),
{
    chess::Board::default()
}

/// `Display` of the engine's board, which prints its Forsyth-Edwards
/// notation. The contract only gives the text its name.
#[verifier::external_body]
fn engine_fen(board: &chess::Board) -> (text: String)
    requires
        board_valid(*board),
    ensures
        text@ == board_fen(*board),
{
    board.to_string()
}

/// `Board::pieces` of the engine, read out square by square. The bit set it
/// returns hands out each marked square once, lowest number first, and a
/// board has 64 squares.
#[verifier::external_body]
fn engine_pieces(board: &chess::Board, piece: u8) -> (squares: Vec<u8>)
    requires
        board_valid(*board),
        piece < 6,
    ensures
        forall|i: int| 0 <= i < squares.len() ==> squares[i] < 64,
        forall|i: int, j: int| 0 <= i < j < squares.len() ==> squares[i] < squares[j],
        forall|n: int|
            board_pieces(*board, piece as int).contains(n) <==> exists|i: int|
                0 <= i < squares.len() && #[trigger] squares[i] == n,
{
    board.pieces(chess::ALL_PIECES[piece as usize]).map(|square| square.to_index() as u8).collect()
}

/// `Board::color_on` of the engine. The contract only gives the answer its
/// name.
#[verifier::external_body]
fn engine_color_on(board: &chess::Board, square: u8) -> (color: Option<Color>)
    requires
        board_valid(*board),
        square < 64,
    ensures
        match color {
            Some(c) => board_color_at(*board, square as int) == Some(c.code()),
            None => board_color_at(*board, square as int) is None,
        },
{
    match board.color_on(chess::ALL_SQUARES[square as usize]) {
        Some(chess::Color::White) => Some(Color::White),
        Some(chess::Color::Black) => Some(Color::Black),
        None => None,
    }
}

/// `Board::legal` of the engine, on the move that `ChessMove::new` makes of
/// the two squares and the promotion. The engine documents it as safe on any
/// move. The contract only gives the answer its name.
#[verifier::external_body]
fn engine_legal(board: &chess::Board, from: u8, to: u8, promotion: Option<u8>) -> (legal: bool)
    requires
        board_valid(*board),
        from < 64,
        to < 64,
        promotion matches Some(piece) ==> piece < 6,
    ensures
        legal == board_legal(*board, from as int, to as int, code_of(promotion)),
{
    board.legal(chess::ChessMove::new(
        chess::ALL_SQUARES[from as usize],
        chess::ALL_SQUARES[to as usize],
        promotion.map(|piece| chess::ALL_PIECES[piece as usize]),
    ))
}

/// `Board::is_sane` of the engine. The contract only gives the answer its
/// name.
#[verifier::external_body]
fn engine_sane(board: &chess::Board) -> (sane: bool)
    ensures
        sane == board_valid(*board),
{
    board.is_sane()
}

/// `Board::make_move_new` of the engine, asked only for a move it calls
/// legal. The contract only gives the new board its name.
#[verifier::external_body]
fn engine_apply(board: &chess::Board, from: u8, to: u8, promotion: Option<u8>) -> (next:
    chess::Board)
    requires
        board_valid(*board),
        from < 64,
        to < 64,
        promotion matches Some(piece) ==> piece < 6,
        board_legal(*board, from as int, to as int, code_of(promotion)),
    ensures
        next == board_after(*board, from as int, to as int, code_of(promotion)),
{
    board.make_move_new(chess::ChessMove::new(
        chess::ALL_SQUARES[from as usize],
        chess::ALL_SQUARES[to as usize],
        promotion.map(|piece| chess::ALL_PIECES[piece as usize]),
    ))
}

/// Whether the engine calls at least one move on the board legal.
pub open spec fn board_has_legal_move(board: chess::Board) -> bool {
    exists|from: int, to: int, promotion: Option<int>|
        engine_move(from, to, promotion) && #[trigger] board_legal(board, from, to, promotion)
}

/// The number of moves that `MoveGen::new_legal` of the engine lists.
/// `Board::legal` looks a move up in that same list, so the list is empty
/// exactly when no move is legal.
#[verifier::external_body]
fn engine_reply_count(board: &chess::Board) -> (count: usize)
    requires
        board_valid(*board),
    ensures
        (count != 0) == board_has_legal_move(*board),
{
    chess::MoveGen::new_legal(board).len()
}

/// `Board::checkers` of the engine, as the bits of the set it holds. The
/// contract only gives the bits their name.
#[verifier::external_body]
fn engine_checkers(board: &chess::Board) -> (bits: u64)
    requires
        board_valid(*board),
    ensures
        bits == board_checkers(*board),
{
    board.checkers().0
}

/// The code of an optional piece number.
pub open spec fn code_of(promotion: Option<u8>) -> Option<int> {
    match promotion {
        Some(piece) => Some(piece as int),
        None => None,
    }
}

/// A position of a game: a board that the rules engine keeps.
#[derive(Clone, Copy, Debug)]
pub struct Position {
    board: chess::Board,
}

impl View for Position {
    type V = chess::Board;

    /// The engine's board of the position.
    closed spec fn view(&self) -> chess::Board {
        self.board
    }
}

impl Position {
    /// The board passes the engine's sanity check. Every position that this
    /// library hands out does.
    pub open spec fn wf(self) -> bool {
        board_valid(self@)
    }

    /// The position in Forsyth-Edwards notation, as the engine prints it.
    pub open spec fn fen(self) -> Seq<char> {
        board_fen(self@)
    }

    /// Whether the square holds a piece of the given type and side.
    pub open spec fn holds(self, piece: PieceType, side: Color, square: Square) -> bool {
        &&& board_pieces(self@, piece.code()).contains(square.number())
        &&& board_color_at(self@, square.number()) == Some(side.code())
    }

    /// Whether the move is legal in this position: the engine calls it legal,
    /// and the board it leads to passes the engine's sanity check.
    pub open spec fn legal(self, from: Square, to: Square, promotion: Option<PieceType>) -> bool {
        &&& board_legal(self@, from.number(), to.number(), promotion_code(promotion))
        &&& board_valid(board_after(self@, from.number(), to.number(), promotion_code(promotion)))
    }

    /// The position after the move: the one whose board is the board that the
    /// engine makes of this one and the move.
    pub closed spec fn after(
        self,
        from: Square,
        to: Square,
        promotion: Option<PieceType>,
    ) -> Position {
        Position {
            board: board_after(
                self.board,
                from.number(),
                to.number(),
                promotion_code(promotion),
            ),
        }
    }

    /// The board of the position after a move is the engine's.
    pub proof fn lemma_after(self, from: Square, to: Square, promotion: Option<PieceType>)
        ensures
            self.after(from, to, promotion)@ == board_after(
                self@,
                from.number(),
                to.number(),
                promotion_code(promotion),
            ),
            self.legal(from, to, promotion) ==> self.after(from, to, promotion).wf(),
    {
    }

    /// Whether the engine calls any move of the side to move legal.
    pub open spec fn has_replies(self) -> bool {
        board_has_legal_move(self@)
    }

    /// Whether the side to move is in check: some piece gives check.
    pub open spec fn in_check(self) -> bool {
        board_checkers(self@) != 0
    }

    /// The starting position of chess.
    pub fn initial() -> (r: Position)
        ensures
            r.wf(),
            r.fen() == start_fen(),
    {
        Position { board: engine_start() }
    }

    /// The position in Forsyth-Edwards notation.
    pub fn to_fen(&self) -> (text: String)
        requires
            self.wf(),
        ensures
            text@ == self.fen(),
    {
        engine_fen(&self.board)
    }

    /// Whether the number is among the first `upto` marked squares and the
    /// square of that number holds a piece of the given side.
    spec fn marked_for(self, marked: Seq<u8>, upto: int, side: Color, n: int) -> bool {
        &&& board_color_at(self.board, n) == Some(side.code())
        &&& exists|m: int| 0 <= m < upto && #[trigger] marked[m] == n
    }

    /// The squares that hold a piece of the given type and side, each once.
    pub fn pieces_of(&self, piece: PieceType, side: Color) -> (found: Vec<Square>)
        requires
            self.wf(),
        ensures
            forall|k: int| 0 <= k < found.len() ==> (#[trigger] found[k]).wf(),
            forall|k: int, l: int| 0 <= k < l < found.len() ==> found[k] != found[l],
            forall|square: Square|
                square.wf() ==> (self.holds(piece, side, square) <==> found@.contains(square)),
    {
        let marked = engine_pieces(&self.board, piece.index());
        let mut found: Vec<Square> = Vec::new();
        let mut i: usize = 0;
        while i < marked.len()
            invariant
                0 <= i <= marked.len(),
                self.wf(),
                forall|m: int| 0 <= m < marked.len() ==> marked[m] < 64,
                forall|m: int, n: int| 0 <= m < n < marked.len() ==> marked[m] < marked[n],
                forall|k: int| 0 <= k < found.len() ==> (#[trigger] found[k]).wf(),
                forall|k: int|
                    0 <= k < found.len() ==> self.marked_for(
                        marked@,
                        i as int,
                        side,
                        (#[trigger] found[k]).number(),
                    ),
                forall|k: int, l: int|
                    0 <= k < l < found.len() ==> found[k].number() < found[l].number(),
                forall|m: int|
                    0 <= m < i && board_color_at(self.board, #[trigger] marked[m] as int) == Some(
                        side.code(),
                    ) ==> exists|k: int|
                        0 <= k < found.len() && #[trigger] found[k].number() == marked[m],
            decreases marked.len() - i,
        {
            let n = marked[i];
            let color = engine_color_on(&self.board, n);
            let mine = match color {
                Some(Color::White) => matches!(side, Color::White),
                Some(Color::Black) => matches!(side, Color::Black),
                None => false,
            };
            if mine {
                let square = Square::from_index(n);
                proof {
                    assert forall|k: int| 0 <= k < found.len() implies (#[trigger] found[
                        k
                    ]).number() < n by {
                        assert(self.marked_for(marked@, i as int, side, found[k].number()));
                        let m = choose|m: int|
                            0 <= m < i && #[trigger] marked[m] == found[k].number();
                        assert(marked[m] < marked[i as int]);
                    }
                }
                let ghost before = found@;
                found.push(square);
                proof {
                    assert forall|m: int|
                        0 <= m < i + 1 && board_color_at(self.board, #[trigger] marked[m] as int)
                            == Some(side.code()) implies exists|k: int|
                        0 <= k < found.len() && #[trigger] found[k].number() == marked[m] by {
                        if m < i {
                            let k = choose|k: int|
                                0 <= k < before.len() && #[trigger] before[k].number()
                                    == marked[m];
                            assert(found[k].number() == marked[m]);
                        } else {
                            assert(found[found.len() - 1].number() == marked[m]);
                        }
                    }
                    assert forall|k: int| 0 <= k < found.len() implies self.marked_for(
                        marked@,
                        i + 1,
                        side,
                        (#[trigger] found[k]).number(),
                    ) by {
                        if k < before.len() {
                            assert(self.marked_for(marked@, i as int, side, before[k].number()));
                            let m = choose|m: int|
                                0 <= m < i && #[trigger] marked[m] == before[k].number();
                            assert(marked[m] == found[k].number());
                        } else {
                            assert(marked[i as int] == found[k].number());
                        }
                    }
                }
            } else {
                proof {
                    assert forall|k: int| 0 <= k < found.len() implies self.marked_for(
                        marked@,
                        i + 1,
                        side,
                        (#[trigger] found[k]).number(),
                    ) by {
                        assert(self.marked_for(marked@, i as int, side, found[k].number()));
                        let m = choose|m: int|
                            0 <= m < i && #[trigger] marked[m] == found[k].number();
                        assert(marked[m] == found[k].number());
                    }
                }
            }
            i += 1;
        }
        proof {
            assert forall|square: Square| square.wf() implies (self.holds(piece, side, square)
                <==> found@.contains(square)) by {
                if self.holds(piece, side, square) {
                    let m = choose|m: int|
                        0 <= m < marked.len() && #[trigger] marked[m] == square.number();
                    let k = choose|k: int|
                        0 <= k < found.len() && #[trigger] found[k].number() == marked[m];
                    assert(found[k] == square);
                }
                if found@.contains(square) {
                    let k = choose|k: int| 0 <= k < found.len() && found[k] == square;
                    assert(self.marked_for(marked@, i as int, side, found[k].number()));
                    let m = choose|m: int|
                        0 <= m < i && #[trigger] marked[m] == found[k].number();
                    assert(board_pieces(self.board, piece.code()).contains(marked[m] as int));
                }
            }
        }
        found
    }

    /// Whether the move is legal in this position.
    pub fn is_legal(&self, from: Square, to: Square, promotion: Option<PieceType>) -> (r: bool)
        requires
            self.wf(),
            from.wf(),
            to.wf(),
        ensures
            r == self.legal(from, to, promotion),
    {
        let piece = promotion_index(promotion);
        if engine_legal(&self.board, from.index(), to.index(), piece) {
            let next = engine_apply(&self.board, from.index(), to.index(), piece);
            engine_sane(&next)
        } else {
            false
        }
    }

    /// The position after a legal move.
    pub fn play(&self, from: Square, to: Square, promotion: Option<PieceType>) -> (next: Position)
        requires
            self.wf(),
            from.wf(),
            to.wf(),
            self.legal(from, to, promotion),
        ensures
            next == self.after(from, to, promotion),
            next@ == board_after(self@, from.number(), to.number(), promotion_code(promotion)),
            next.wf(),
    {
        Position {
            board: engine_apply(&self.board, from.index(), to.index(), promotion_index(promotion)),
        }
    }

    /// The position after the move, if the move is legal.
    pub fn try_play(&self, from: Square, to: Square, promotion: Option<PieceType>) -> (r: Option<
        Position,
    >)
        requires
            self.wf(),
            from.wf(),
            to.wf(),
        ensures
            r == (if self.legal(from, to, promotion) {
                Some(self.after(from, to, promotion))
            } else {
                None
            }),
            r matches Some(next) ==> next.wf(),
    {
        if self.is_legal(from, to, promotion) {
            Some(self.play(from, to, promotion))
        } else {
            None
        }
    }

    /// Whether the engine calls any move of the side to move legal.
    pub fn has_legal_replies(&self) -> (r: bool)
        requires
            self.wf(),
        ensures
            r == self.has_replies(),
    {
        engine_reply_count(&self.board) != 0
    }

    /// Whether the side to move is in check.
    pub fn is_in_check(&self) -> (r: bool)
        requires
            self.wf(),
        ensures
            r == self.in_check(),
    {
        engine_checkers(&self.board) != 0
    }
}

/// The number of an optional promotion piece, as the engine takes it.
fn promotion_index(promotion: Option<PieceType>) -> (r: Option<u8>)
    ensures
        code_of(r) == promotion_code(promotion),
        r matches Some(piece) ==> piece < 6,
{
    match promotion {
        Some(piece) => Some(piece.index()),
        None => None,
    }
}

} // verus!
