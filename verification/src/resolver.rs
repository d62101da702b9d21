//! Resolution: from the intent of a written move to the one legal move that
//! it stands for on a given board, or the reason why there is none.

use vstd::prelude::*;
use crate::notation::{CastleSide, Origin, PartialMove};
use crate::pieces::{Color, PieceType, Square};
use crate::position::Position;

verus! {

/// Why a well-formed move stands for no move on the board.
#[derive(Clone, Copy, Debug, PartialEq, Eq, Structural)]
pub enum ResolveError {
    /// No square can be the origin at all: the mover has no piece of the
    /// named type, or none where the notation says.
    NoPieceOfType,
    /// There are squares the piece could come from, but from none of them is
    /// the move legal.
    IllegalMove,
    /// The move is legal from two or more squares: the origin has to be named.
    AmbiguousMove,
}

/// A move with its origin known, found legal on the board it was resolved on.
#[derive(Clone, Copy, Debug, PartialEq, Eq, Structural)]
pub struct ResolvedMove {
    pub piece_type: PieceType,
    pub origin_square: Square,
    pub destination_square: Square,
    pub promotion_piece: Option<PieceType>,
}

impl ResolvedMove {
    /// Both squares lie on the board.
    pub open spec fn wf(self) -> bool {
        self.origin_square.wf() && self.destination_square.wf()
    }
}

/// The square a king castles from: e1 for White, e8 for Black.
pub open spec fn castle_origin(side: Color) -> Square {
    Square { file: 4, rank: if side == Color::White { 0 } else { 7 } }
}

/// The square a king castles to: the g-file on the king's side, the c-file
/// on the queen's side, on the mover's own first rank.
pub open spec fn castle_destination(side: Color, castle: CastleSide) -> Square {
    Square {
        file: if castle == CastleSide::Kingside { 6 } else { 2 },
        rank: if side == Color::White { 0 } else { 7 },
    }
}

/// Whether a square is a candidate origin. Where the notation names the
/// whole origin square, that square is the only candidate. Otherwise the
/// candidates are the squares that hold a piece of the named type and of the
/// side to move, and that lie on the file or rank the notation names, if it
/// names one.
pub open spec fn is_candidate(
    position: Position,
    side: Color,
    piece: PieceType,
    origin: Origin,
    square: Square,
) -> bool {
    &&& square.wf()
    &&& match origin.whole() {
        Some(given) => square == given,
        None => position.holds(piece, side, square) && origin.admits(square),
    }
}

/// Whether a square is a candidate origin from which the move is legal.
pub open spec fn is_legal_origin(
    position: Position,
    side: Color,
    partial: PartialMove,
    square: Square,
) -> bool {
    match partial {
        PartialMove::Castle(_) => false,
        PartialMove::Piece { piece_type, origin, destination_square, promotion_piece } => {
            &&& is_candidate(position, side, piece_type, origin, square)
            &&& position.legal(square, destination_square, promotion_piece)
        },
    }
}

/// What a move resolves to.
///
/// A castling word stands for the king's move between its fixed squares, if
/// that move is legal. Any other move is decided by its
/// candidate origins, in this order: with no candidate at all there is no
/// piece of the type; with no candidate from which the move is legal the move
/// is illegal; with two or more such candidates it is ambiguous; with exactly
/// one, that candidate is the origin.
pub open spec fn resolution(partial: PartialMove, position: Position, side: Color) -> Result<
    ResolvedMove,
    ResolveError,
> {
    match partial {
        PartialMove::Castle(castle) => {
            if position.legal(castle_origin(side), castle_destination(side, castle), None) {
                Ok(
                    ResolvedMove {
                        piece_type: PieceType::King,
                        origin_square: castle_origin(side),
                        destination_square: castle_destination(side, castle),
                        promotion_piece: None,
                    },
                )
            } else {
                Err(ResolveError::IllegalMove)
            }
        },
        PartialMove::Piece { piece_type, origin, destination_square, promotion_piece } => {
            if forall|square: Square|
                !#[trigger] is_candidate(position, side, piece_type, origin, square) {
                Err(ResolveError::NoPieceOfType)
            } else if forall|square: Square|
                !#[trigger] is_legal_origin(position, side, partial, square) {
                Err(ResolveError::IllegalMove)
            } else if exists|a: Square, b: Square|
                a != b && #[trigger] is_legal_origin(position, side, partial, a)
                    && #[trigger] is_legal_origin(position, side, partial, b) {
                Err(ResolveError::AmbiguousMove)
            } else {
                Ok(
                    ResolvedMove {
                        piece_type,
                        origin_square: choose|square: Square| #[trigger]
                            is_legal_origin(position, side, partial, square),
                        destination_square,
                        promotion_piece,
                    },
                )
            }
        },
    }
}

/// Of the given squares, those that agree with the origin as written and from
/// which the move is legal; and whether any agrees at all.
fn legal_origins(
    position: &Position,
    sources: &Vec<Square>,
    origin: &Origin,
    destination: Square,
    promotion: Option<PieceType>,
) -> (r: (bool, Vec<Square>))
    requires
        position.wf(),
        destination.wf(),
        forall|i: int| 0 <= i < sources.len() ==> (#[trigger] sources[i]).wf(),
        forall|i: int, j: int| 0 <= i < j < sources.len() ==> sources[i] != sources[j],
    ensures
        r.0 <==> exists|i: int| 0 <= i < sources.len() && origin.admits(#[trigger] sources[i]),
        forall|k: int|
            0 <= k < r.1.len() ==> {
                &&& sources@.contains(#[trigger] r.1[k])
                &&& origin.admits(r.1[k])
                &&& position.legal(r.1[k], destination, promotion)
            },
        forall|k: int, l: int| 0 <= k < l < r.1.len() ==> r.1[k] != r.1[l],
        forall|i: int|
            0 <= i < sources.len() && origin.admits(#[trigger] sources[i]) && position.legal(
                sources[i],
                destination,
                promotion,
            ) ==> r.1@.contains(sources[i]),
{
    let mut any = false;
    let mut legal: Vec<Square> = Vec::new();
    let mut i: usize = 0;
    while i < sources.len()
        invariant
            0 <= i <= sources.len(),
            position.wf(),
            destination.wf(),
            forall|i: int| 0 <= i < sources.len() ==> (#[trigger] sources[i]).wf(),
            forall|i: int, j: int| 0 <= i < j < sources.len() ==> sources[i] != sources[j],
            any <==> exists|m: int| 0 <= m < i && origin.admits(#[trigger] sources[m]),
            forall|k: int|
                0 <= k < legal.len() ==> {
                    &&& exists|m: int| 0 <= m < i && sources[m] == #[trigger] legal[k]
                    &&& origin.admits(legal[k])
                    &&& position.legal(legal[k], destination, promotion)
                },
            forall|k: int, l: int| 0 <= k < l < legal.len() ==> legal[k] != legal[l],
            forall|m: int|
                0 <= m < i && origin.admits(#[trigger] sources[m]) && position.legal(
                    sources[m],
                    destination,
                    promotion,
                ) ==> legal@.contains(sources[m]),
        decreases sources.len() - i,
    {
        let square = sources[i];
        let ghost before = legal@;
        if origin.agrees_with(square) {
            any = true;
            if position.is_legal(square, destination, promotion) {
                legal.push(square);
                proof {
                    assert(legal[legal.len() - 1] == square);
                    assert forall|m: int|
                        0 <= m < i && origin.admits(#[trigger] sources[m]) && position.legal(
                            sources[m],
                            destination,
                            promotion,
                        ) implies legal@.contains(sources[m]) by {
                        let k = choose|k: int| 0 <= k < before.len() && before[k] == sources[m];
                        assert(legal[k] == sources[m]);
                    }
                }
            }
        }
        proof {
            assert forall|k: int| 0 <= k < legal.len() implies exists|m: int|
                0 <= m < i + 1 && sources[m] == #[trigger] legal[k] by {
                if k < before.len() {
                    let m = choose|m: int| 0 <= m < i && sources[m] == before[k];
                    assert(sources[m] == legal[k]);
                } else {
                    assert(sources[i as int] == legal[k]);
                }
            }
            assert forall|k: int, l: int| 0 <= k < l < legal.len() implies legal[k] != legal[l] by {
                if l >= before.len() {
                    let m = choose|m: int| 0 <= m < i && sources[m] == before[k];
                    assert(sources[m] != sources[i as int]);
                }
            }
            if origin.admits(square) {
                assert(origin.admits(sources[i as int]));
            }
        }
        i += 1;
    }
    (any, legal)
}

/// The squares among which the candidates are looked for: the origin square
/// where the notation names it whole, else every square that holds a piece of
/// the named type and of the side to move.
fn candidate_sources(
    position: &Position,
    side: Color,
    piece: PieceType,
    origin: &Origin,
) -> (sources: Vec<Square>)
    requires
        position.wf(),
        origin.wf(),
    ensures
        forall|i: int| 0 <= i < sources.len() ==> (#[trigger] sources[i]).wf(),
        forall|i: int, j: int| 0 <= i < j < sources.len() ==> sources[i] != sources[j],
        forall|square: Square|
            #[trigger] is_candidate(*position, side, piece, *origin, square) <==> sources@.contains(
                square,
            ) && origin.admits(square),
{
    match origin.square() {
        Some(given) => {
            let sources = vec![given];
            proof {
                assert(sources[0] == given);
                assert forall|square: Square|
                    #[trigger] is_candidate(*position, side, piece, *origin, square)
                        <==> sources@.contains(square) && origin.admits(square) by {
                    if sources@.contains(square) {
                        assert(square == given);
                    }
                }
            }
            sources
        },
        None => position.pieces_of(piece, side),
    }
}

/// Resolves the intent of a written move on a board, for the side to move.
///
/// The order of the failures is part of the contract: that there is no piece
/// of the type is reported before that the move is illegal, and a move is
/// ambiguous only among the origins from which it is legal.
pub fn resolve(partial: &PartialMove, position: &Position, side_to_move: Color) -> (r: Result<
    ResolvedMove,
    ResolveError,
>)
    requires
        partial.wf(),
        position.wf(),
    ensures
        r == resolution(*partial, *position, side_to_move),
        r matches Ok(mv) ==> mv.wf() && position.legal(
            mv.origin_square,
            mv.destination_square,
            mv.promotion_piece,
        ),
{
    match *partial {
        PartialMove::Castle(castle) => {
            let rank: u8 = match side_to_move {
                Color::White => 0,
                Color::Black => 7,
            };
            let file: u8 = match castle {
                CastleSide::Kingside => 6,
                CastleSide::Queenside => 2,
            };
            let from = Square { file: 4, rank };
            let to = Square { file, rank };
            if position.is_legal(from, to, None) {
                Ok(
                    ResolvedMove {
                        piece_type: PieceType::King,
                        origin_square: from,
                        destination_square: to,
                        promotion_piece: None,
                    },
                )
            } else {
                Err(ResolveError::IllegalMove)
            }
        },
        PartialMove::Piece { piece_type, origin, destination_square, promotion_piece } => {
            let sources = candidate_sources(position, side_to_move, piece_type, &origin);
            let (any, legal) = legal_origins(
                position,
                &sources,
                &origin,
                destination_square,
                promotion_piece,
            );
            proof {
                assert forall|square: Square| #[trigger]
                    is_legal_origin(*position, side_to_move, *partial, square)
                        <==> legal@.contains(square) by {
                    if is_legal_origin(*position, side_to_move, *partial, square) {
                        assert(is_candidate(*position, side_to_move, piece_type, origin, square));
                        let i = choose|i: int| 0 <= i < sources.len() && sources[i] == square;
                        assert(origin.admits(sources[i]));
                    }
                    if legal@.contains(square) {
                        let k = choose|k: int| 0 <= k < legal.len() && legal[k] == square;
                        assert(sources@.contains(legal[k]));
                    }
                }
                if any {
                    let i = choose|i: int|
                        0 <= i < sources.len() && origin.admits(#[trigger] sources[i]);
                    assert(sources@.contains(sources[i]));
                    assert(is_candidate(*position, side_to_move, piece_type, origin, sources[i]));
                } else {
                    assert forall|square: Square|
                        !#[trigger] is_candidate(
                            *position,
                            side_to_move,
                            piece_type,
                            origin,
                            square,
                        ) by {
                        if is_candidate(*position, side_to_move, piece_type, origin, square) {
                            let i = choose|i: int| 0 <= i < sources.len() && sources[i] == square;
                            assert(origin.admits(sources[i]));
                        }
                    }
                }
            }
            if !any {
                Err(ResolveError::NoPieceOfType)
            } else if legal.len() == 0 {
                Err(ResolveError::IllegalMove)
            } else if legal.len() == 1 {
                let found = legal[0];
                proof {
                    assert(legal@.contains(legal[0]));
                    assert(is_legal_origin(*position, side_to_move, *partial, found));
                    assert forall|a: Square, b: Square|
                        #[trigger] is_legal_origin(*position, side_to_move, *partial, a)
                            && #[trigger] is_legal_origin(
                            *position,
                            side_to_move,
                            *partial,
                            b,
                        ) implies a == b by {
                        assert(legal@.contains(a) && legal@.contains(b));
                    }
                    let chosen = choose|square: Square| #[trigger]
                        is_legal_origin(*position, side_to_move, *partial, square);
                    assert(chosen == found);
                }
                Ok(
                    ResolvedMove {
                        piece_type,
                        origin_square: found,
                        destination_square,
                        promotion_piece,
                    },
                )
            } else {
                proof {
                    assert(legal@.contains(legal[0]) && legal@.contains(legal[1]));
                    assert(legal[0] != legal[1]);
                    assert(is_legal_origin(*position, side_to_move, *partial, legal[0]));
                    assert(is_legal_origin(*position, side_to_move, *partial, legal[1]));
                }
                Err(ResolveError::AmbiguousMove)
            }
        },
    }
}

/// A move that names no origin is never decided silently: where the move is
/// legal from a candidate, it resolves to that candidate if the move is legal
/// from no other, and is ambiguous if it is legal from another as well.
pub proof fn law_unique_or_ambiguous(
    partial: PartialMove,
    position: Position,
    side: Color,
    found: Square,
)
    requires
        partial matches PartialMove::Piece { origin, .. } && origin.whole() is None,
        is_legal_origin(position, side, partial, found),
    ensures
        (forall|other: Square| #[trigger]
            is_legal_origin(position, side, partial, other) ==> other == found) ==> (resolution(
            partial,
            position,
            side,
        ) matches Ok(played) && played.origin_square == found),
        (exists|other: Square|
            other != found && #[trigger] is_legal_origin(position, side, partial, other))
            ==> resolution(partial, position, side) == Err::<ResolvedMove, ResolveError>(
            ResolveError::AmbiguousMove,
        ),
{
    match partial {
        PartialMove::Castle(_) => {},
        PartialMove::Piece { piece_type, origin, destination_square, promotion_piece } => {
            assert(is_candidate(position, side, piece_type, origin, found));
            if exists|other: Square|
                other != found && #[trigger] is_legal_origin(position, side, partial, other) {
                let other = choose|other: Square|
                    other != found && #[trigger] is_legal_origin(position, side, partial, other);
                assert(is_legal_origin(position, side, partial, found) && is_legal_origin(
                    position,
                    side,
                    partial,
                    other,
                ));
            }
        },
    }
}

/// What a move resolves to keeps what was written: the piece, the
/// destination and the promotion piece go on unchanged, and the origin is one
/// from which the move is legal.
pub proof fn law_resolution_keeps_intent(partial: PartialMove, position: Position, side: Color)
    requires
        resolution(partial, position, side) is Ok,
    ensures
        ({
            let played = resolution(partial, position, side)->Ok_0;
            &&& position.legal(
                played.origin_square,
                played.destination_square,
                played.promotion_piece,
            )
            &&& match partial {
                PartialMove::Castle(castle) => {
                    &&& played.piece_type == PieceType::King
                    &&& played.origin_square == castle_origin(side)
                    &&& played.destination_square == castle_destination(side, castle)
                    &&& played.promotion_piece is None
                },
                PartialMove::Piece { piece_type, origin, destination_square, promotion_piece } => {
                    &&& played.piece_type == piece_type
                    &&& played.destination_square == destination_square
                    &&& played.promotion_piece == promotion_piece
                    &&& is_candidate(position, side, piece_type, origin, played.origin_square)
                },
            }
        }),
{
    match partial {
        PartialMove::Castle(_) => {},
        PartialMove::Piece { piece_type, origin, destination_square, promotion_piece } => {
            let witness = choose|square: Square| #[trigger]
                is_legal_origin(position, side, partial, square);
            assert(exists|square: Square| #[trigger]
                is_legal_origin(position, side, partial, square));
            assert(is_legal_origin(position, side, partial, witness));
        },
    }
}

} // verus!
