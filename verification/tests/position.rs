use chess_session::pieces::{Color, PieceType, Square};
use chess_session::position::Position;

fn sq(name: &str) -> Square {
    let mut chars = name.chars();
    Square::from_chars(chars.next().unwrap(), chars.next().unwrap()).unwrap()
}

fn sorted(mut squares: Vec<Square>) -> Vec<u8> {
    let mut numbers: Vec<u8> = squares.drain(..).map(|s| s.index()).collect();
    numbers.sort();
    numbers
}

#[test]
fn initial_position_is_the_standard_one() {
    assert_eq!(
        Position::initial().to_fen(),
        "rnbqkbnr/pppppppp/8/8/8/8/PPPPPPPP/RNBQKBNR w KQkq - 0 1"
    );
}

#[test]
fn pieces_are_found_by_type_and_side() {
    let start = Position::initial();
    assert_eq!(sorted(start.pieces_of(PieceType::Rook, Color::White)), vec![0, 7]);
    assert_eq!(sorted(start.pieces_of(PieceType::Rook, Color::Black)), vec![56, 63]);
    assert_eq!(sorted(start.pieces_of(PieceType::Knight, Color::White)), vec![1, 6]);
    assert_eq!(sorted(start.pieces_of(PieceType::King, Color::Black)), vec![60]);
    assert_eq!(sorted(start.pieces_of(PieceType::Queen, Color::White)), vec![3]);
    assert_eq!(
        sorted(start.pieces_of(PieceType::Pawn, Color::White)),
        vec![8, 9, 10, 11, 12, 13, 14, 15]
    );
    assert_eq!(
        sorted(start.pieces_of(PieceType::Pawn, Color::Black)),
        vec![48, 49, 50, 51, 52, 53, 54, 55]
    );
}

#[test]
fn legality_is_the_engines() {
    let start = Position::initial();
    assert!(start.is_legal(sq("e2"), sq("e4"), None));
    assert!(start.is_legal(sq("g1"), sq("f3"), None));
    assert!(!start.is_legal(sq("e2"), sq("e5"), None));
    assert!(!start.is_legal(sq("b1"), sq("f3"), None));
    assert!(!start.is_legal(sq("e7"), sq("e5"), None));
    assert!(!start.is_legal(sq("e4"), sq("e5"), None));
    assert!(!start.is_legal(sq("e2"), sq("e4"), Some(PieceType::Queen)));
}

#[test]
fn playing_a_move_gives_the_next_position() {
    let start = Position::initial();
    let next = start.play(sq("e2"), sq("e4"), None);
    assert_eq!(next.to_fen(), "rnbqkbnr/pppppppp/8/8/4P3/8/PPPP1PPP/RNBQKBNR b KQkq - 0 1");
    assert_eq!(
        start.to_fen(),
        "rnbqkbnr/pppppppp/8/8/8/8/PPPPPPPP/RNBQKBNR w KQkq - 0 1"
    );
    assert!(next.is_legal(sq("e7"), sq("e5"), None));
    assert!(!next.is_legal(sq("d2"), sq("d4"), None));
    assert_eq!(
        sorted(next.pieces_of(PieceType::Pawn, Color::White)),
        vec![8, 9, 10, 11, 13, 14, 15, 28]
    );
}

#[test]
fn start_has_replies_and_no_check() {
    let start = Position::initial();
    assert!(start.has_legal_replies());
    assert!(!start.is_in_check());
}

#[test]
fn mated_side_is_in_check_without_replies() {
    let mated = Position::initial()
        .play(sq("f2"), sq("f3"), None)
        .play(sq("e7"), sq("e5"), None)
        .play(sq("g2"), sq("g4"), None)
        .play(sq("d8"), sq("h4"), None);
    assert!(mated.is_in_check());
    assert!(!mated.has_legal_replies());
}

#[test]
fn checked_side_with_replies_is_not_mated() {
    let checked = Position::initial()
        .play(sq("e2"), sq("e4"), None)
        .play(sq("f7"), sq("f6"), None)
        .play(sq("d1"), sq("h5"), None);
    assert!(checked.is_in_check());
    assert!(checked.has_legal_replies());
}

#[test]
fn illegal_move_is_not_played() {
    let start = Position::initial();
    assert!(start.try_play(sq("e2"), sq("e5"), None).is_none());
    assert!(start.try_play(sq("e1"), sq("g1"), None).is_none());
    let next = start.try_play(sq("g1"), sq("f3"), None).unwrap();
    assert_eq!(next.to_fen(), "rnbqkbnr/pppppppp/8/8/8/5N2/PPPPPPPP/RNBQKB1R b KQkq - 0 1");
}
