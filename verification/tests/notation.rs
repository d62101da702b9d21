use chess_session::notation::{parse, CastleSide, NotationError, Origin, PartialMove};
use chess_session::pieces::{PieceType, Square};

fn piece_move(
    piece_type: PieceType,
    origin: (Option<u8>, Option<u8>),
    destination: (u8, u8),
    promotion_piece: Option<PieceType>,
) -> Result<PartialMove, NotationError> {
    Ok(PartialMove::Piece {
        piece_type,
        origin: Origin { file: origin.0, rank: origin.1 },
        destination_square: Square { file: destination.0, rank: destination.1 },
        promotion_piece,
    })
}

#[test]
fn pawn_push_names_only_its_destination() {
    assert_eq!(parse("e4"), piece_move(PieceType::Pawn, (None, None), (4, 3), None));
    assert_eq!(parse("a2"), piece_move(PieceType::Pawn, (None, None), (0, 1), None));
    assert_eq!(parse("h7"), piece_move(PieceType::Pawn, (None, None), (7, 6), None));
}

#[test]
fn piece_letters_name_the_five_pieces() {
    assert_eq!(parse("Nf3"), piece_move(PieceType::Knight, (None, None), (5, 2), None));
    assert_eq!(parse("Kd2"), piece_move(PieceType::King, (None, None), (3, 1), None));
    assert_eq!(parse("Qh5"), piece_move(PieceType::Queen, (None, None), (7, 4), None));
    assert_eq!(parse("Bc4"), piece_move(PieceType::Bishop, (None, None), (2, 3), None));
    assert_eq!(parse("Rd1"), piece_move(PieceType::Rook, (None, None), (3, 0), None));
}

#[test]
fn castling_words_are_read_as_such() {
    assert_eq!(parse("O-O"), Ok(PartialMove::Castle(CastleSide::Kingside)));
    assert_eq!(parse("O-O-O"), Ok(PartialMove::Castle(CastleSide::Queenside)));
}

#[test]
fn castling_words_are_matched_exactly() {
    assert_eq!(parse("o-o"), Err(NotationError::MalformedMove));
    assert_eq!(parse("0-0"), Err(NotationError::MalformedMove));
    assert_eq!(parse("O-O+"), Err(NotationError::MalformedMove));
    assert_eq!(parse("O-O-O-O"), Err(NotationError::MalformedMove));
    assert_eq!(parse("O-"), Err(NotationError::MalformedMove));
    assert_eq!(parse(" O-O"), Err(NotationError::MalformedMove));
}

#[test]
fn origin_comes_before_the_piece_letter() {
    assert_eq!(parse("g1Nf3"), piece_move(PieceType::Knight, (Some(6), Some(0)), (5, 2), None));
    assert_eq!(parse("aRd1"), piece_move(PieceType::Rook, (Some(0), None), (3, 0), None));
    assert_eq!(parse("1Rd1"), piece_move(PieceType::Rook, (None, Some(0)), (3, 0), None));
    assert_eq!(parse("e2e4"), piece_move(PieceType::Pawn, (Some(4), Some(1)), (4, 3), None));
    assert_eq!(parse("ee4"), piece_move(PieceType::Pawn, (Some(4), None), (4, 3), None));
    assert_eq!(parse("2e4"), piece_move(PieceType::Pawn, (None, Some(1)), (4, 3), None));
}

#[test]
fn piece_letter_before_the_origin_is_malformed() {
    assert_eq!(parse("Ng1f3"), Err(NotationError::MalformedMove));
    assert_eq!(parse("Rad1"), Err(NotationError::MalformedMove));
}

#[test]
fn capture_mark_is_read_and_carries_no_meaning() {
    assert_eq!(parse("exd5"), piece_move(PieceType::Pawn, (Some(4), None), (3, 4), None));
    assert_eq!(parse("Nxe5"), parse("Ne5"));
    assert_eq!(parse("xd5"), parse("d5"));
    assert_eq!(parse("b1Nxc3"), parse("b1Nc3"));
}

#[test]
fn check_marks_are_read_and_carry_no_meaning() {
    assert_eq!(parse("Qh4#"), parse("Qh4"));
    assert_eq!(parse("Qxd7+"), parse("Qd7"));
    assert_eq!(parse("e8=Q+"), parse("e8=Q"));
    assert_eq!(parse("e8=Q#"), parse("e8=Q"));
}

#[test]
fn promotion_suffix_names_the_piece() {
    assert_eq!(
        parse("e8=Q"),
        piece_move(PieceType::Pawn, (None, None), (4, 7), Some(PieceType::Queen))
    );
    assert_eq!(
        parse("a1=R"),
        piece_move(PieceType::Pawn, (None, None), (0, 0), Some(PieceType::Rook))
    );
    assert_eq!(
        parse("dxe8=N"),
        piece_move(PieceType::Pawn, (Some(3), None), (4, 7), Some(PieceType::Knight))
    );
    assert_eq!(
        parse("h8=B"),
        piece_move(PieceType::Pawn, (None, None), (7, 7), Some(PieceType::Bishop))
    );
}

#[test]
fn promoting_pawn_without_suffix_is_missing_promotion() {
    assert_eq!(parse("e8"), Err(NotationError::MissingPromotion));
    assert_eq!(parse("e1"), Err(NotationError::MissingPromotion));
    assert_eq!(parse("dxe8"), Err(NotationError::MissingPromotion));
    assert_eq!(parse("a8+"), Err(NotationError::MissingPromotion));
}

#[test]
fn pieces_reach_the_last_rank_without_promotion() {
    assert_eq!(parse("Re8"), piece_move(PieceType::Rook, (None, None), (4, 7), None));
    assert_eq!(parse("Kg1"), piece_move(PieceType::King, (None, None), (6, 0), None));
}

#[test]
fn promotion_suffix_on_a_move_that_does_not_promote_is_dropped() {
    assert_eq!(parse("e4=Q"), parse("e4"));
    assert_eq!(parse("Re8=Q"), parse("Re8"));
}

#[test]
fn promotion_suffix_stands_right_after_the_destination() {
    assert_eq!(parse("e8Q="), Err(NotationError::MalformedMove));
    assert_eq!(parse("e8+=Q"), Err(NotationError::MalformedMove));
    assert_eq!(parse("=Qe8"), Err(NotationError::MalformedMove));
    assert_eq!(parse("e8="), Err(NotationError::MalformedMove));
    assert_eq!(parse("e8=K"), Err(NotationError::MalformedMove));
    assert_eq!(parse("e8=q"), Err(NotationError::MalformedMove));
    assert_eq!(parse("e8=Q=Q"), Err(NotationError::MalformedMove));
}

#[test]
fn strings_that_are_no_moves_are_malformed() {
    assert_eq!(parse(""), Err(NotationError::MalformedMove));
    assert_eq!(parse("e"), Err(NotationError::MalformedMove));
    assert_eq!(parse("4"), Err(NotationError::MalformedMove));
    assert_eq!(parse("e9"), Err(NotationError::MalformedMove));
    assert_eq!(parse("i4"), Err(NotationError::MalformedMove));
    assert_eq!(parse("e0"), Err(NotationError::MalformedMove));
    assert_eq!(parse("Pe4"), Err(NotationError::MalformedMove));
    assert_eq!(parse("nf3"), Err(NotationError::MalformedMove));
    assert_eq!(parse("NF3"), Err(NotationError::MalformedMove));
    assert_eq!(parse("E4"), Err(NotationError::MalformedMove));
    assert_eq!(parse("Nf3 "), Err(NotationError::MalformedMove));
    assert_eq!(parse(" Nf3"), Err(NotationError::MalformedMove));
    assert_eq!(parse("Nf3!"), Err(NotationError::MalformedMove));
    assert_eq!(parse("Nf3++"), Err(NotationError::MalformedMove));
    assert_eq!(parse("NNf3"), Err(NotationError::MalformedMove));
    assert_eq!(parse("Nxxf3"), Err(NotationError::MalformedMove));
    assert_eq!(parse("e2-e4"), Err(NotationError::MalformedMove));
    assert_eq!(parse("1eRd1"), Err(NotationError::MalformedMove));
    assert_eq!(parse("abRd1"), Err(NotationError::MalformedMove));
    assert_eq!(parse("move e4"), Err(NotationError::MalformedMove));
}

#[test]
fn longest_move_has_nine_characters() {
    assert_eq!(
        parse("d7Pxe8=Q+"),
        Err(NotationError::MalformedMove)
    );
    assert_eq!(
        parse("d7Nxe8=Q+"),
        piece_move(PieceType::Knight, (Some(3), Some(6)), (4, 7), None)
    );
    assert_eq!(parse("d7Nxe8=Q+#"), Err(NotationError::MalformedMove));
    assert_eq!(parse("a1a1a1a1a1a1a1a1"), Err(NotationError::MalformedMove));
}

#[test]
fn characters_outside_ascii_are_malformed() {
    assert_eq!(parse("é4"), Err(NotationError::MalformedMove));
    assert_eq!(parse("e4\u{2318}"), Err(NotationError::MalformedMove));
    assert_eq!(parse("\u{265E}f3"), Err(NotationError::MalformedMove));
}

#[test]
fn origin_square_is_whole_only_with_file_and_rank() {
    let whole = Origin { file: Some(4), rank: Some(1) };
    assert_eq!(whole.square(), Some(Square { file: 4, rank: 1 }));
    assert_eq!(Origin { file: Some(4), rank: None }.square(), None);
    assert_eq!(Origin { file: None, rank: Some(1) }.square(), None);
    assert_eq!(Origin { file: None, rank: None }.square(), None);
}

#[test]
fn origin_agrees_with_squares_on_its_file_or_rank() {
    let on_a = Origin { file: Some(0), rank: None };
    assert!(on_a.agrees_with(Square { file: 0, rank: 5 }));
    assert!(!on_a.agrees_with(Square { file: 1, rank: 5 }));
    let on_first = Origin { file: None, rank: Some(0) };
    assert!(on_first.agrees_with(Square { file: 6, rank: 0 }));
    assert!(!on_first.agrees_with(Square { file: 6, rank: 1 }));
    let anywhere = Origin { file: None, rank: None };
    assert!(anywhere.agrees_with(Square { file: 3, rank: 3 }));
}
