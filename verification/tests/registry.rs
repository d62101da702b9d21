use chess_session::notation::NotationError;
use chess_session::pieces::Color;
use chess_session::registry::{CommandError, SessionRegistry, StartError};
use chess_session::resolver::ResolveError;
use chess_session::session::{Conclusion, DrawOutcome, MoveError, SessionState};

const ANNA: u64 = 11;
const BORIS: u64 = 22;
const CLARA: u64 = 33;
const DAVID: u64 = 44;

fn peek(registry: &mut SessionRegistry, who: u64) -> (u64, u64, String, Color, Option<u64>) {
    let session = registry.checkout(who).unwrap();
    let seen = (
        session.participant_white(),
        session.participant_black(),
        session.board().to_fen(),
        session.side_to_move(),
        session.draw_offer(),
    );
    registry.checkin(session);
    seen
}

#[test]
fn new_registry_holds_no_game() {
    let mut registry = SessionRegistry::new();
    assert!(!registry.is_playing(ANNA));
    assert!(registry.checkout(ANNA).is_none());
}

#[test]
fn started_game_is_found_under_both_participants() {
    let mut registry = SessionRegistry::new();
    assert_eq!(registry.start_session(ANNA, BORIS, Color::White), Ok(()));
    assert!(registry.is_playing(ANNA));
    assert!(registry.is_playing(BORIS));
    assert!(!registry.is_playing(CLARA));
    let by_anna = peek(&mut registry, ANNA);
    let by_boris = peek(&mut registry, BORIS);
    assert_eq!(by_anna, by_boris);
    assert_eq!(by_anna.0, ANNA);
    assert_eq!(by_anna.1, BORIS);
    assert_eq!(by_anna.3, Color::White);
    assert_eq!(by_anna.4, None);
}

#[test]
fn requester_may_ask_for_black() {
    let mut registry = SessionRegistry::new();
    assert_eq!(registry.start_session(ANNA, BORIS, Color::Black), Ok(()));
    let session = registry.checkout(ANNA).unwrap();
    assert_eq!(session.participant_white(), BORIS);
    assert_eq!(session.participant_black(), ANNA);
    assert_eq!(session.state(), SessionState::Active(Color::White));
}

#[test]
fn participant_in_a_game_cannot_start_another() {
    let mut registry = SessionRegistry::new();
    assert_eq!(registry.start_session(ANNA, BORIS, Color::White), Ok(()));
    registry.play(ANNA, "e4").unwrap();
    let before = peek(&mut registry, ANNA);
    assert_eq!(registry.start_session(ANNA, CLARA, Color::White), Err(StartError::AlreadyInGame));
    assert_eq!(registry.start_session(ANNA, CLARA, Color::Black), Err(StartError::AlreadyInGame));
    assert_eq!(registry.start_session(CLARA, ANNA, Color::White), Err(StartError::AlreadyInGame));
    assert_eq!(registry.start_session(BORIS, CLARA, Color::White), Err(StartError::AlreadyInGame));
    assert_eq!(registry.start_session(CLARA, BORIS, Color::White), Err(StartError::AlreadyInGame));
    assert_eq!(registry.start_session(ANNA, BORIS, Color::White), Err(StartError::AlreadyInGame));
    assert_eq!(registry.start_session(ANNA, ANNA, Color::White), Err(StartError::AlreadyInGame));
    assert!(!registry.is_playing(CLARA));
    assert_eq!(peek(&mut registry, ANNA), before);
    assert_eq!(peek(&mut registry, BORIS), before);
}

#[test]
fn nobody_plays_against_themselves() {
    let mut registry = SessionRegistry::new();
    assert_eq!(registry.start_session(ANNA, ANNA, Color::White), Err(StartError::InvalidOpponent));
    assert!(!registry.is_playing(ANNA));
    assert_eq!(registry.start_session(ANNA, BORIS, Color::White), Ok(()));
}

#[test]
fn games_of_different_pairs_do_not_touch() {
    let mut registry = SessionRegistry::new();
    assert_eq!(registry.start_session(ANNA, BORIS, Color::White), Ok(()));
    assert_eq!(registry.start_session(CLARA, DAVID, Color::Black), Ok(()));
    registry.play(ANNA, "e4").unwrap();
    let first = peek(&mut registry, BORIS);
    registry.play(DAVID, "d4").unwrap();
    registry.play(CLARA, "d5").unwrap();
    assert_eq!(peek(&mut registry, ANNA), first);
    let second = peek(&mut registry, CLARA);
    assert_eq!(second.0, DAVID);
    assert_eq!(second.1, CLARA);
    assert_eq!(second.2, "rnbqkbnr/ppp1pppp/8/3p4/3P4/8/PPP1PPPP/RNBQKBNR w KQkq - 0 1");
    assert!(registry.resign(ANNA));
    assert_eq!(peek(&mut registry, DAVID), second);
}

#[test]
fn checked_out_session_is_absent_until_checked_in() {
    let mut registry = SessionRegistry::new();
    assert_eq!(registry.start_session(ANNA, BORIS, Color::White), Ok(()));
    let session = registry.checkout(ANNA).unwrap();
    assert!(!registry.is_playing(ANNA));
    assert!(!registry.is_playing(BORIS));
    assert!(registry.checkout(ANNA).is_none());
    assert!(registry.checkout(BORIS).is_none());
    assert!(matches!(registry.play(BORIS, "e5"), Err(CommandError::NoSession)));
    registry.checkin(session);
    assert!(registry.is_playing(ANNA));
    assert!(registry.is_playing(BORIS));
}

#[test]
fn concluded_session_is_dropped_on_checkin() {
    let mut registry = SessionRegistry::new();
    assert_eq!(registry.start_session(ANNA, BORIS, Color::White), Ok(()));
    let mut session = registry.checkout(BORIS).unwrap();
    assert!(session.resign(BORIS));
    registry.checkin(session);
    assert!(!registry.is_playing(ANNA));
    assert!(!registry.is_playing(BORIS));
    assert_eq!(registry.start_session(BORIS, CLARA, Color::White), Ok(()));
}

#[test]
fn move_of_someone_in_no_game_finds_no_session() {
    let mut registry = SessionRegistry::new();
    assert!(matches!(registry.play(ANNA, "e4"), Err(CommandError::NoSession)));
    assert_eq!(registry.offer_draw(ANNA), Err(CommandError::NoSession));
    assert!(!registry.resign(ANNA));
}

#[test]
fn rejected_move_leaves_the_session_in_the_registry() {
    let mut registry = SessionRegistry::new();
    assert_eq!(registry.start_session(ANNA, BORIS, Color::White), Ok(()));
    registry.play(ANNA, "e4").unwrap();
    assert_eq!(registry.offer_draw(ANNA), Ok(DrawOutcome::Offered));
    let before = peek(&mut registry, ANNA);
    assert!(matches!(
        registry.play(ANNA, "d4"),
        Err(CommandError::Rejected(MoveError::WrongTurn))
    ));
    assert!(matches!(
        registry.play(BORIS, "e9"),
        Err(CommandError::Rejected(MoveError::Notation(NotationError::MalformedMove)))
    ));
    assert!(matches!(
        registry.play(BORIS, "e1"),
        Err(CommandError::Rejected(MoveError::Notation(NotationError::MissingPromotion)))
    ));
    assert!(matches!(
        registry.play(BORIS, "Qd5"),
        Err(CommandError::Rejected(MoveError::Resolve(ResolveError::IllegalMove)))
    ));
    assert!(registry.is_playing(ANNA));
    assert!(registry.is_playing(BORIS));
    assert_eq!(peek(&mut registry, ANNA), before);
    assert_eq!(before.4, Some(ANNA));
    assert_eq!(before.3, Color::Black);
}

#[test]
fn accepted_move_is_kept_in_the_registry() {
    let mut registry = SessionRegistry::new();
    assert_eq!(registry.start_session(ANNA, BORIS, Color::White), Ok(()));
    let report = registry.play(ANNA, "Nf3").unwrap();
    assert_eq!(report.board, "rnbqkbnr/pppppppp/8/8/8/5N2/PPPPPPPP/RNBQKB1R b KQkq - 0 1");
    let seen = peek(&mut registry, BORIS);
    assert_eq!(seen.2, report.board);
    assert_eq!(seen.3, Color::Black);
}

#[test]
fn mating_move_takes_the_game_out_of_the_registry() {
    let mut registry = SessionRegistry::new();
    assert_eq!(registry.start_session(ANNA, BORIS, Color::White), Ok(()));
    registry.play(ANNA, "f3").unwrap();
    registry.play(BORIS, "e5").unwrap();
    registry.play(ANNA, "g4").unwrap();
    let report = registry.play(BORIS, "Qh4#").unwrap();
    assert_eq!(report.conclusion, Some(Conclusion::Checkmate));
    assert!(!registry.is_playing(ANNA));
    assert!(!registry.is_playing(BORIS));
    assert!(matches!(registry.play(ANNA, "a3"), Err(CommandError::NoSession)));
    assert_eq!(registry.start_session(ANNA, CLARA, Color::White), Ok(()));
}

#[test]
fn accepted_draw_takes_the_game_out_of_the_registry() {
    let mut registry = SessionRegistry::new();
    assert_eq!(registry.start_session(ANNA, BORIS, Color::White), Ok(()));
    assert_eq!(registry.offer_draw(BORIS), Ok(DrawOutcome::Offered));
    assert!(registry.is_playing(ANNA));
    assert_eq!(registry.offer_draw(BORIS), Ok(DrawOutcome::Redundant));
    assert!(registry.is_playing(BORIS));
    assert_eq!(peek(&mut registry, ANNA).4, Some(BORIS));
    assert_eq!(registry.offer_draw(ANNA), Ok(DrawOutcome::Accepted));
    assert!(!registry.is_playing(ANNA));
    assert!(!registry.is_playing(BORIS));
}

#[test]
fn move_after_a_draw_offer_keeps_the_game_going() {
    let mut registry = SessionRegistry::new();
    assert_eq!(registry.start_session(ANNA, BORIS, Color::White), Ok(()));
    assert_eq!(registry.offer_draw(BORIS), Ok(DrawOutcome::Offered));
    registry.play(ANNA, "e4").unwrap();
    assert_eq!(peek(&mut registry, ANNA).4, None);
    assert_eq!(registry.offer_draw(ANNA), Ok(DrawOutcome::Offered));
    assert!(registry.is_playing(BORIS));
}

#[test]
fn resignation_takes_the_game_out_of_the_registry() {
    let mut registry = SessionRegistry::new();
    assert_eq!(registry.start_session(ANNA, BORIS, Color::White), Ok(()));
    assert_eq!(registry.start_session(CLARA, DAVID, Color::White), Ok(()));
    assert!(registry.resign(BORIS));
    assert!(!registry.is_playing(ANNA));
    assert!(!registry.is_playing(BORIS));
    assert!(registry.is_playing(CLARA));
    assert!(registry.is_playing(DAVID));
    assert!(!registry.resign(BORIS));
    assert_eq!(registry.start_session(BORIS, ANNA, Color::White), Ok(()));
}
