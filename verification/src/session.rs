//! One game between two participants: whose turn it is, what a move attempt
//! does, and how a game ends.
//!
//! [`SessionView`] is the mathematical model of a session, with the
//! transitions as functions on it. [`GameSession`] is the session itself;
//! each of its operations is specified by the transition it performs.

use vstd::prelude::*;
use crate::notation::{notation_meaning, parse, NotationError};
use crate::pieces::Color;
use crate::position::{start_fen, Position};
use crate::resolver::{resolution, resolve, ResolveError, ResolvedMove};

verus! {

/// How a game ended.
#[derive(Clone, Copy, Debug, PartialEq, Eq, Structural)]
pub enum Conclusion {
    /// The side to move has no legal move and is in check.
    Checkmate,
    /// The side to move has no legal move and is not in check.
    Stalemate,
    /// One participant offered a draw and the other accepted it.
    DrawAgreed,
    /// The named participant resigned.
    Resignation(u64),
}

/// The state of a session.
#[derive(Clone, Copy, Debug, PartialEq, Eq, Structural)]
pub enum SessionState {
    /// The game goes on, with the given side to move.
    Active(Color),
    /// The game goes on, and the named participant has offered a draw.
    DrawOffered(u64, Color),
    /// The game is over.
    Concluded(Conclusion),
}

/// Why a move attempt was rejected.
#[derive(Clone, Copy, Debug, PartialEq, Eq, Structural)]
pub enum MoveError {
    /// It is not the mover's turn: the other side is to move, the mover takes
    /// no part in the game, or the game is over.
    WrongTurn,
    /// The string is not a move.
    Notation(NotationError),
    /// The string is a move, but not one that can be played on the board.
    Resolve(ResolveError),
}

/// What became of a draw offer.
#[derive(Clone, Copy, Debug, PartialEq, Eq, Structural)]
pub enum DrawOutcome {
    /// No offer was pending; the offer now is.
    Offered,
    /// The other participant's offer was pending; the game is drawn.
    Accepted,
    /// The same participant's offer was already pending; nothing changed.
    Redundant,
    /// The game is over, or the participant takes no part in it; nothing
    /// changed.
    Refused,
}

/// What a successful move attempt reports: the move that was played, the
/// board to render, and how the game ended if the move ended it.
#[derive(Debug)]
pub struct MoveReport {
    pub played: ResolvedMove,
    /// The position after the move, in Forsyth-Edwards notation.
    pub board: String,
    pub conclusion: Option<Conclusion>,
}

/// The model of a session.
pub struct SessionView {
    pub participant_white: u64,
    pub participant_black: u64,
    pub board: Position,
    pub side_to_move: Color,
    pub draw_offer: Option<u64>,
    pub conclusion: Option<Conclusion>,
}

impl SessionView {
    /// The two participants differ, a pending draw offer is one of theirs,
    /// and the board is well formed.
    pub open spec fn wf(self) -> bool {
        &&& self.participant_white != self.participant_black
        &&& self.draw_offer matches Some(by) ==> self.has_participant(by)
        &&& self.board.wf()
    }

    /// A session as it is when it starts: a fresh board, White to move, no
    /// draw offer, not over.
    pub open spec fn is_fresh(self, white: u64, black: u64) -> bool {
        &&& self.participant_white == white
        &&& self.participant_black == black
        &&& self.board.fen() == start_fen()
        &&& self.side_to_move == Color::White
        &&& self.draw_offer is None
        &&& self.conclusion is None
    }

    /// Whether the identity is that of one of the two participants.
    pub open spec fn has_participant(self, who: u64) -> bool {
        who == self.participant_white || who == self.participant_black
    }

    /// Whether the game is over.
    pub open spec fn is_concluded(self) -> bool {
        self.conclusion is Some
    }

    /// The state of the session.
    pub open spec fn state(self) -> SessionState {
        match self.conclusion {
            Some(reason) => SessionState::Concluded(reason),
            None => match self.draw_offer {
                Some(by) => SessionState::DrawOffered(by, self.side_to_move),
                None => SessionState::Active(self.side_to_move),
            },
        }
    }

    /// The participant whose turn it is; nobody once the game is over.
    pub open spec fn mover(self) -> Option<u64> {
        if self.is_concluded() {
            None
        } else if self.side_to_move == Color::White {
            Some(self.participant_white)
        } else {
            Some(self.participant_black)
        }
    }

    /// What a move attempt comes to: the move to play, or the first reason
    /// against it. Whose turn it is comes first, then the notation, then the
    /// board.
    pub open spec fn move_result(self, mover: u64, text: Seq<char>) -> Result<
        ResolvedMove,
        MoveError,
    > {
        if self.mover() != Some(mover) {
            Err(MoveError::WrongTurn)
        } else {
            match notation_meaning(text) {
                Err(e) => Err(MoveError::Notation(e)),
                Ok(partial) => match resolution(partial, self.board, self.side_to_move) {
                    Err(e) => Err(MoveError::Resolve(e)),
                    Ok(played) => Ok(played),
                },
            }
        }
    }

    /// How the game ends on a board on which a move was just played: by
    /// checkmate or stalemate if the side now to move has no legal move, and
    /// not at all otherwise.
    pub open spec fn conclusion_on(board: Position) -> Option<Conclusion> {
        if board.has_replies() {
            None
        } else if board.in_check() {
            Some(Conclusion::Checkmate)
        } else {
            Some(Conclusion::Stalemate)
        }
    }

    /// The session after a move was played: the board has the move applied,
    /// the turn passes, and a pending draw offer is gone.
    pub open spec fn after_move(self, played: ResolvedMove) -> SessionView {
        let board = self.board.after(
            played.origin_square,
            played.destination_square,
            played.promotion_piece,
        );
        SessionView {
            participant_white: self.participant_white,
            participant_black: self.participant_black,
            board,
            side_to_move: self.side_to_move.opponent(),
            draw_offer: None,
            conclusion: Self::conclusion_on(board),
        }
    }

    /// What becomes of a draw offer by the named participant.
    pub open spec fn draw_outcome(self, by: u64) -> DrawOutcome {
        if self.is_concluded() || !self.has_participant(by) {
            DrawOutcome::Refused
        } else {
            match self.draw_offer {
                None => DrawOutcome::Offered,
                Some(earlier) => if earlier == by {
                    DrawOutcome::Redundant
                } else {
                    DrawOutcome::Accepted
                },
            }
        }
    }

    /// The session after a draw offer by the named participant.
    pub open spec fn after_draw(self, by: u64) -> SessionView {
        match self.draw_outcome(by) {
            DrawOutcome::Offered => SessionView { draw_offer: Some(by), ..self },
            DrawOutcome::Accepted => SessionView {
                conclusion: Some(Conclusion::DrawAgreed),
                ..self
            },
            _ => self,
        }
    }

    /// Whether the named participant can resign: the game goes on and the
    /// participant takes part in it.
    pub open spec fn can_resign(self, by: u64) -> bool {
        !self.is_concluded() && self.has_participant(by)
    }

    /// The session after the named participant resigned.
    pub open spec fn after_resignation(self, by: u64) -> SessionView {
        if self.can_resign(by) {
            SessionView { conclusion: Some(Conclusion::Resignation(by)), ..self }
        } else {
            self
        }
    }

    /// The session after a move attempt: as it was where the attempt is
    /// rejected, with the move played where it is accepted.
    pub open spec fn after_attempt(self, mover: u64, text: Seq<char>) -> SessionView {
        match self.move_result(mover, text) {
            Ok(played) => self.after_move(played),
            Err(_) => self,
        }
    }

    /// The session after the attempts of a sequence, each a mover and what
    /// the mover wrote, were made one after another.
    pub open spec fn after_attempts(self, attempts: Seq<(u64, Seq<char>)>) -> SessionView
        decreases attempts.len(),
    {
        if attempts.len() == 0 {
            self
        } else {
            self.after_attempts(attempts.drop_last()).after_attempt(
                attempts.last().0,
                attempts.last().1,
            )
        }
    }

    /// How many attempts of a sequence, made one after another, are accepted.
    pub open spec fn accepted(self, attempts: Seq<(u64, Seq<char>)>) -> nat
        decreases attempts.len(),
    {
        if attempts.len() == 0 {
            0
        } else {
            let earlier = self.accepted(attempts.drop_last());
            if self.after_attempts(attempts.drop_last()).move_result(
                attempts.last().0,
                attempts.last().1,
            ) is Ok {
                earlier + 1
            } else {
                earlier
            }
        }
    }
}

/// A rejected move attempt leaves the whole session as it was: the side to
/// move, the board and a pending draw offer with it.
pub proof fn law_rejection_changes_nothing(session: SessionView, mover: u64, text: Seq<char>)
    requires
        session.move_result(mover, text) is Err,
    ensures
        session.after_attempt(mover, text) == session,
{
}

/// An accepted move passes the turn, drops a pending draw offer and keeps the
/// participants.
pub proof fn law_accepted_move(session: SessionView, mover: u64, text: Seq<char>)
    requires
        session.move_result(mover, text) is Ok,
    ensures
        session.mover() == Some(mover),
        session.after_attempt(mover, text).side_to_move == session.side_to_move.opponent(),
        session.after_attempt(mover, text).draw_offer is None,
        session.after_attempt(mover, text).participant_white == session.participant_white,
        session.after_attempt(mover, text).participant_black == session.participant_black,
        !(session.after_attempt(mover, text).state() is DrawOffered),
{
}

/// Turns alternate: from a session with White to move, after any attempts of
/// which N are accepted, White is to move if and only if N is even.
pub proof fn law_turns_alternate(start: SessionView, attempts: Seq<(u64, Seq<char>)>)
    requires
        start.side_to_move == Color::White,
    ensures
        start.after_attempts(attempts).side_to_move == Color::White <==> start.accepted(attempts)
            % 2 == 0,
    decreases attempts.len(),
{
    if attempts.len() > 0 {
        law_turns_alternate(start, attempts.drop_last());
    }
}

/// A draw that one participant offers and the other accepts ends the game as
/// agreed drawn.
pub proof fn law_draw_offered_then_accepted(session: SessionView, first: u64, second: u64)
    requires
        !session.is_concluded(),
        session.draw_offer is None,
        session.has_participant(first),
        session.has_participant(second),
        first != second,
    ensures
        session.draw_outcome(first) == DrawOutcome::Offered,
        session.after_draw(first).state() == SessionState::DrawOffered(
            first,
            session.side_to_move,
        ),
        session.after_draw(first).draw_outcome(second) == DrawOutcome::Accepted,
        session.after_draw(first).after_draw(second).state() == SessionState::Concluded(
            Conclusion::DrawAgreed,
        ),
{
}

/// A draw offer repeated by the participant who made it is redundant and
/// leaves the session as the first offer left it.
pub proof fn law_draw_offer_repeated(session: SessionView, by: u64)
    requires
        !session.is_concluded(),
        session.draw_offer is None,
        session.has_participant(by),
    ensures
        session.after_draw(by).draw_outcome(by) == DrawOutcome::Redundant,
        session.after_draw(by).after_draw(by) == session.after_draw(by),
        session.after_draw(by).state() == SessionState::DrawOffered(by, session.side_to_move),
{
}

/// A resignation ends the game at once, in the name of the one who resigned.
pub proof fn law_resignation_concludes(session: SessionView, by: u64)
    requires
        session.can_resign(by),
    ensures
        session.after_resignation(by).state() == SessionState::Concluded(
            Conclusion::Resignation(by),
        ),
{
}

/// A concluded session stays as it is: no move is accepted, no draw offer is
/// taken and nobody can resign.
pub proof fn law_concluded_is_terminal(session: SessionView, who: u64, text: Seq<char>)
    requires
        session.is_concluded(),
    ensures
        session.after_attempt(who, text) == session,
        session.after_draw(who) == session,
        session.after_resignation(who) == session,
{
}

/// One game between two participants.
#[derive(Debug)]
pub struct GameSession {
    participant_white: u64,
    participant_black: u64,
    board: Position,
    side_to_move: Color,
    draw_offer: Option<u64>,
    conclusion: Option<Conclusion>,
}

impl View for GameSession {
    type V = SessionView;

    closed spec fn view(&self) -> SessionView {
        SessionView {
            participant_white: self.participant_white,
            participant_black: self.participant_black,
            board: self.board,
            side_to_move: self.side_to_move,
            draw_offer: self.draw_offer,
            conclusion: self.conclusion,
        }
    }
}

impl GameSession {
    /// Starts a game between two different participants.
    pub fn start(white: u64, black: u64) -> (session: GameSession)
        requires
            white != black,
        ensures
            session@.wf(),
            session@.is_fresh(white, black),
            session@.state() == SessionState::Active(Color::White),
    {
        GameSession {
            participant_white: white,
            participant_black: black,
            board: Position::initial(),
            side_to_move: Color::White,
            draw_offer: None,
            conclusion: None,
        }
    }

    /// The participant who plays White.
    pub fn participant_white(&self) -> (r: u64)
        ensures
            r == self@.participant_white,
    {
        self.participant_white
    }

    /// The participant who plays Black.
    pub fn participant_black(&self) -> (r: u64)
        ensures
            r == self@.participant_black,
    {
        self.participant_black
    }

    /// Whether the identity is that of one of the two participants.
    pub fn has_participant(&self, who: u64) -> (r: bool)
        ensures
            r == self@.has_participant(who),
    {
        who == self.participant_white || who == self.participant_black
    }

    /// The side to move.
    pub fn side_to_move(&self) -> (r: Color)
        ensures
            r == self@.side_to_move,
    {
        self.side_to_move
    }

    /// The participant whose draw offer is pending, if one is.
    pub fn draw_offer(&self) -> (r: Option<u64>)
        ensures
            r == self@.draw_offer,
    {
        self.draw_offer
    }

    /// The board.
    pub fn board(&self) -> (r: Position)
        ensures
            r == self@.board,
    {
        self.board
    }

    /// Whether the game is over.
    pub fn is_concluded(&self) -> (r: bool)
        ensures
            r == self@.is_concluded(),
    {
        self.conclusion.is_some()
    }

    /// The state of the session.
    pub fn state(&self) -> (r: SessionState)
        ensures
            r == self@.state(),
    {
        match self.conclusion {
            Some(reason) => SessionState::Concluded(reason),
            None => match self.draw_offer {
                Some(by) => SessionState::DrawOffered(by, self.side_to_move),
                None => SessionState::Active(self.side_to_move),
            },
        }
    }

    /// Attempts the move that `mover` wrote as `move_string`.
    ///
    /// A rejected attempt changes nothing. An accepted one plays the move on
    /// the board, passes the turn, drops a pending draw offer, and ends the
    /// game where the opponent is left without a legal move; the report
    /// carries the board to render.
    pub fn attempt_move(&mut self, mover: u64, move_string: &str) -> (r: Result<
        MoveReport,
        MoveError,
    >)
        requires
            old(self)@.wf(),
        ensures
            final(self)@.wf(),
            final(self)@ == old(self)@.after_attempt(mover, move_string@),
            match old(self)@.move_result(mover, move_string@) {
                Ok(played) => {
                    &&& final(self)@ == old(self)@.after_move(played)
                    &&& r matches Ok(report)
                    &&& report.played == played
                    &&& report.board@ == final(self)@.board.fen()
                    &&& report.conclusion == final(self)@.conclusion
                },
                Err(reason) => *final(self) == *old(self) && r == Err::<MoveReport, MoveError>(
                    reason,
                ),
            },
    {
        if self.conclusion.is_some() {
            return Err(MoveError::WrongTurn);
        }
        let expected = match self.side_to_move {
            Color::White => self.participant_white,
            Color::Black => self.participant_black,
        };
        if mover != expected {
            return Err(MoveError::WrongTurn);
        }
        let partial = match parse(move_string) {
            Ok(partial) => partial,
            Err(e) => {
                return Err(MoveError::Notation(e));
            },
        };
        let played = match resolve(&partial, &self.board, self.side_to_move) {
            Ok(played) => played,
            Err(e) => {
                return Err(MoveError::Resolve(e));
            },
        };
        let next = self.board.play(
            played.origin_square,
            played.destination_square,
            played.promotion_piece,
        );
        let conclusion = if next.has_legal_replies() {
            None
        } else if next.is_in_check() {
            Some(Conclusion::Checkmate)
        } else {
            Some(Conclusion::Stalemate)
        };
        let board = next.to_fen();
        self.board = next;
        self.side_to_move = self.side_to_move.opposite();
        self.draw_offer = None;
        self.conclusion = conclusion;
        Ok(MoveReport { played, board, conclusion })
    }

    /// Offers a draw in the name of `by`, or accepts the offer that the other
    /// participant made.
    pub fn offer_draw(&mut self, by: u64) -> (r: DrawOutcome)
        requires
            old(self)@.wf(),
        ensures
            final(self)@.wf(),
            r == old(self)@.draw_outcome(by),
            final(self)@ == old(self)@.after_draw(by),
            r == DrawOutcome::Redundant || r == DrawOutcome::Refused ==> *final(self) == *old(self),
    {
        if self.conclusion.is_some() || !self.has_participant(by) {
            return DrawOutcome::Refused;
        }
        match self.draw_offer {
            None => {
                self.draw_offer = Some(by);
                DrawOutcome::Offered
            },
            Some(earlier) => {
                if earlier == by {
                    DrawOutcome::Redundant
                } else {
                    self.conclusion = Some(Conclusion::DrawAgreed);
                    DrawOutcome::Accepted
                }
            },
        }
    }

    /// Resigns the game in the name of `by`. Says whether that ended the
    /// game: it does unless the game is over already or `by` takes no part
    /// in it.
    pub fn resign(&mut self, by: u64) -> (r: bool)
        requires
            old(self)@.wf(),
        ensures
            final(self)@.wf(),
            r == old(self)@.can_resign(by),
            final(self)@ == old(self)@.after_resignation(by),
            !r ==> *final(self) == *old(self),
    {
        if self.conclusion.is_some() || !self.has_participant(by) {
            return false;
        }
        self.conclusion = Some(Conclusion::Resignation(by));
        true
    }
}

} // verus!
