//! The registry of the games that go on: at most one per participant.
//!
//! The model of a registry is a map from each participant who is in a game to
//! the session of that game, so that a session stands under both of its
//! participants. A session is taken out for the time of one command and put
//! back unless the command ended the game.

use vstd::prelude::*;
use crate::pieces::Color;
use crate::resolver::ResolvedMove;
use crate::session::{DrawOutcome, GameSession, MoveError, MoveReport, SessionView};

verus! {

/// Why no game was started.
#[derive(Clone, Copy, Debug, PartialEq, Eq, Structural)]
pub enum StartError {
    /// One of the two participants is in a game already.
    AlreadyInGame,
    /// The two participants are one and the same.
    InvalidOpponent,
}

/// Why a command on behalf of a participant came to nothing.
#[derive(Clone, Copy, Debug, PartialEq, Eq, Structural)]
pub enum CommandError {
    /// The participant is in no game.
    NoSession,
    /// The participant's game rejected the move.
    Rejected(MoveError),
}

/// What a map from participants to sessions has to be for a registry: each
/// session that goes on stands under both of its participants, under nobody
/// else, and is well formed.
pub open spec fn is_registry(sessions: Map<u64, SessionView>) -> bool {
    forall|who: u64| #[trigger]
        sessions.dom().contains(who) ==> {
            let session = sessions[who];
            &&& session.wf()
            &&& !session.is_concluded()
            &&& session.has_participant(who)
            &&& sessions.dom().contains(session.participant_white)
            &&& sessions.dom().contains(session.participant_black)
            &&& sessions[session.participant_white] == session
            &&& sessions[session.participant_black] == session
        }
}

/// What a request to start a game between `a` and `b` comes to.
pub open spec fn start_result(sessions: Map<u64, SessionView>, a: u64, b: u64) -> Result<
    (),
    StartError,
> {
    if sessions.dom().contains(a) || sessions.dom().contains(b) {
        Err(StartError::AlreadyInGame)
    } else if a == b {
        Err(StartError::InvalidOpponent)
    } else {
        Ok(())
    }
}

/// The participant who plays White where `a` asks for the given colour
/// against `b`.
pub open spec fn white_of(a: u64, b: u64, preferred: Color) -> u64 {
    if preferred == Color::White {
        a
    } else {
        b
    }
}

/// The participant who plays Black where `a` asks for the given colour
/// against `b`.
pub open spec fn black_of(a: u64, b: u64, preferred: Color) -> u64 {
    if preferred == Color::White {
        b
    } else {
        a
    }
}

/// The map with a session entered under both of its participants.
pub open spec fn with_session(sessions: Map<u64, SessionView>, session: SessionView) -> Map<
    u64,
    SessionView,
> {
    sessions.insert(session.participant_white, session).insert(session.participant_black, session)
}

/// The map without the entries of a session's two participants.
pub open spec fn without_session(sessions: Map<u64, SessionView>, session: SessionView) -> Map<
    u64,
    SessionView,
> {
    sessions.remove(session.participant_white).remove(session.participant_black)
}

/// The map after a session that was taken out is handed back: entered again
/// while the game goes on, left out once it is over.
pub open spec fn after_checkin(sessions: Map<u64, SessionView>, session: SessionView) -> Map<
    u64,
    SessionView,
> {
    if session.is_concluded() {
        sessions
    } else {
        with_session(sessions, session)
    }
}

/// The map after a session in it has become `next`: entered in its new state
/// while the game goes on, gone once it is over.
pub open spec fn with_update(sessions: Map<u64, SessionView>, next: SessionView) -> Map<
    u64,
    SessionView,
> {
    after_checkin(without_session(sessions, next), next)
}

/// What a move that `mover` wrote comes to.
pub open spec fn play_result(
    sessions: Map<u64, SessionView>,
    mover: u64,
    text: Seq<char>,
) -> Result<ResolvedMove, CommandError> {
    if !sessions.dom().contains(mover) {
        Err(CommandError::NoSession)
    } else {
        match sessions[mover].move_result(mover, text) {
            Ok(played) => Ok(played),
            Err(reason) => Err(CommandError::Rejected(reason)),
        }
    }
}

/// The map after a move that `mover` wrote.
pub open spec fn after_play(sessions: Map<u64, SessionView>, mover: u64, text: Seq<char>) -> Map<
    u64,
    SessionView,
> {
    match play_result(sessions, mover, text) {
        Ok(played) => with_update(sessions, sessions[mover].after_move(played)),
        Err(_) => sessions,
    }
}

/// The map after a draw offer by `by`.
pub open spec fn after_draw_offer(sessions: Map<u64, SessionView>, by: u64) -> Map<
    u64,
    SessionView,
> {
    if sessions.dom().contains(by) {
        with_update(sessions, sessions[by].after_draw(by))
    } else {
        sessions
    }
}

/// The map after `by` resigned.
pub open spec fn after_resignation(sessions: Map<u64, SessionView>, by: u64) -> Map<
    u64,
    SessionView,
> {
    if sessions.dom().contains(by) {
        with_update(sessions, sessions[by].after_resignation(by))
    } else {
        sessions
    }
}

/// Whether the session at a place in a list has the participant.
pub open spec fn holds_at(sessions: Seq<GameSession>, i: int, who: u64) -> bool {
    0 <= i < sessions.len() && sessions[i]@.has_participant(who)
}

/// The map that a list of sessions stands for.
pub open spec fn map_of(sessions: Seq<GameSession>) -> Map<u64, SessionView> {
    Map::new(
        |who: u64| exists|i: int| holds_at(sessions, i, who),
        |who: u64| sessions[choose|i: int| holds_at(sessions, i, who)]@,
    )
}

/// Every session of the list is well formed and goes on, and no participant
/// is in two of them.
pub open spec fn exclusive(sessions: Seq<GameSession>) -> bool {
    &&& forall|i: int|
        0 <= i < sessions.len() ==> (#[trigger] sessions[i])@.wf() && !sessions[i]@.is_concluded()
    &&& forall|i: int, j: int, who: u64|
        #[trigger] holds_at(sessions, i, who) && #[trigger] holds_at(sessions, j, who) ==> i == j
}

/// In a list where no participant is in two sessions, a participant of the
/// session at a place stands for that session in the map.
proof fn lemma_lookup(sessions: Seq<GameSession>, i: int, who: u64)
    requires
        exclusive(sessions),
        holds_at(sessions, i, who),
    ensures
        map_of(sessions).dom().contains(who),
        map_of(sessions)[who] == sessions[i]@,
{
    let j = choose|j: int| holds_at(sessions, j, who);
    assert(holds_at(sessions, j, who));
}

/// The map of such a list has what a registry needs.
proof fn lemma_map_is_registry(sessions: Seq<GameSession>)
    requires
        exclusive(sessions),
    ensures
        is_registry(map_of(sessions)),
{
    let m = map_of(sessions);
    assert forall|who: u64| #[trigger] m.dom().contains(who) implies {
        let session = m[who];
        &&& session.wf()
        &&& !session.is_concluded()
        &&& session.has_participant(who)
        &&& m.dom().contains(session.participant_white)
        &&& m.dom().contains(session.participant_black)
        &&& m[session.participant_white] == session
        &&& m[session.participant_black] == session
    } by {
        let i = choose|i: int| holds_at(sessions, i, who);
        assert(holds_at(sessions, i, who));
        let session = sessions[i]@;
        assert(holds_at(sessions, i, session.participant_white));
        assert(holds_at(sessions, i, session.participant_black));
        lemma_lookup(sessions, i, session.participant_white);
        lemma_lookup(sessions, i, session.participant_black);
    }
}

/// Adding a session whose participants are in none of the list enters it in
/// the map.
proof fn lemma_push(sessions: Seq<GameSession>, session: GameSession)
    requires
        exclusive(sessions),
        session@.wf(),
        !session@.is_concluded(),
        !map_of(sessions).dom().contains(session@.participant_white),
        !map_of(sessions).dom().contains(session@.participant_black),
    ensures
        exclusive(sessions.push(session)),
        map_of(sessions.push(session)) == with_session(map_of(sessions), session@),
{
    let after = sessions.push(session);
    let last = sessions.len() as int;
    assert(after[last] == session);
    assert forall|i: int, j: int, who: u64|
        #[trigger] holds_at(after, i, who) && #[trigger] holds_at(after, j, who) implies i
        == j by {
        if i < last {
            assert(holds_at(sessions, i, who));
        }
        if j < last {
            assert(holds_at(sessions, j, who));
        }
    }
    assert(exclusive(after));
    let expected = with_session(map_of(sessions), session@);
    assert forall|who: u64| map_of(after).dom().contains(who) <==> expected.dom().contains(
        who,
    ) by {
        if map_of(after).dom().contains(who) {
            let i = choose|i: int| holds_at(after, i, who);
            if i < last {
                assert(holds_at(sessions, i, who));
            }
        }
        if expected.dom().contains(who) {
            if session@.has_participant(who) {
                assert(holds_at(after, last, who));
            } else {
                let i = choose|i: int| holds_at(sessions, i, who);
                assert(holds_at(after, i, who));
            }
        }
    }
    assert forall|who: u64| map_of(after).dom().contains(who) implies map_of(after)[who]
        == expected[who] by {
        let i = choose|i: int| holds_at(after, i, who);
        lemma_lookup(after, i, who);
        if i < last {
            assert(holds_at(sessions, i, who));
            lemma_lookup(sessions, i, who);
        }
    }
    assert(map_of(after) =~= expected);
}

/// Taking the session at a place out of the list takes it out of the map.
proof fn lemma_remove(sessions: Seq<GameSession>, at: int)
    requires
        exclusive(sessions),
        0 <= at < sessions.len(),
    ensures
        exclusive(sessions.remove(at)),
        map_of(sessions.remove(at)) == without_session(map_of(sessions), sessions[at]@),
{
    let after = sessions.remove(at);
    let gone = sessions[at]@;
    assert forall|i: int| 0 <= i < after.len() implies after[i] == sessions[if i < at {
        i
    } else {
        i + 1
    }] by {}
    assert forall|i: int, j: int, who: u64|
        #[trigger] holds_at(after, i, who) && #[trigger] holds_at(after, j, who) implies i
        == j by {
        let i0 = if i < at { i } else { i + 1 };
        let j0 = if j < at { j } else { j + 1 };
        assert(holds_at(sessions, i0, who));
        assert(holds_at(sessions, j0, who));
    }
    assert forall|i: int| 0 <= i < after.len() implies (#[trigger] after[i])@.wf()
        && !after[i]@.is_concluded() by {
        let i0 = if i < at { i } else { i + 1 };
        assert(after[i] == sessions[i0]);
    }
    assert(exclusive(after));
    let expected = without_session(map_of(sessions), gone);
    assert forall|who: u64| map_of(after).dom().contains(who) <==> expected.dom().contains(
        who,
    ) by {
        if map_of(after).dom().contains(who) {
            let i = choose|i: int| holds_at(after, i, who);
            let i0 = if i < at { i } else { i + 1 };
            assert(holds_at(sessions, i0, who));
            if gone.has_participant(who) {
                assert(holds_at(sessions, at, who));
            }
        }
        if expected.dom().contains(who) {
            let i0 = choose|i: int| holds_at(sessions, i, who);
            assert(holds_at(sessions, i0, who));
            assert(i0 != at);
            let i = if i0 < at { i0 } else { i0 - 1 };
            assert(holds_at(after, i, who));
        }
    }
    assert forall|who: u64| map_of(after).dom().contains(who) implies map_of(after)[who]
        == expected[who] by {
        let i = choose|i: int| holds_at(after, i, who);
        lemma_lookup(after, i, who);
        let i0 = if i < at { i } else { i + 1 };
        assert(after[i] == sessions[i0]);
        assert(holds_at(sessions, i0, who));
        lemma_lookup(sessions, i0, who);
        if gone.has_participant(who) {
            assert(holds_at(sessions, at, who));
        }
        assert(who != gone.participant_white && who != gone.participant_black);
    }
    assert(map_of(after) =~= expected);
}

/// The games that go on.
#[derive(Debug)]
pub struct SessionRegistry {
    sessions: Vec<GameSession>,
}

impl View for SessionRegistry {
    type V = Map<u64, SessionView>;

    closed spec fn view(&self) -> Map<u64, SessionView> {
        map_of(self.sessions@)
    }
}

impl SessionRegistry {
    /// No participant is in two sessions, and every session is well formed
    /// and goes on.
    pub closed spec fn wf(&self) -> bool {
        exclusive(self.sessions@)
    }

    /// The model of a well-formed registry has what a registry needs: a
    /// participant appears in at most one session, which is found under both
    /// of its participants.
    pub proof fn lemma_view_is_registry(&self)
        requires
            self.wf(),
        ensures
            is_registry(self@),
    {
        lemma_map_is_registry(self.sessions@);
    }

    /// A registry without any game.
    pub fn new() -> (registry: SessionRegistry)
        ensures
            registry.wf(),
            registry@ == Map::<u64, SessionView>::empty(),
    {
        let registry = SessionRegistry { sessions: Vec::new() };
        assert(registry@ =~= Map::<u64, SessionView>::empty());
        registry
    }

    /// The place of the session that the participant is in.
    fn find(&self, who: u64) -> (r: Option<usize>)
        requires
            self.wf(),
        ensures
            match r {
                Some(i) => holds_at(self.sessions@, i as int, who) && self@.dom().contains(who)
                    && self@[who] == self.sessions@[i as int]@,
                None => !self@.dom().contains(who),
            },
    {
        let mut i: usize = 0;
        while i < self.sessions.len()
            invariant
                0 <= i <= self.sessions.len(),
                self.wf(),
                forall|j: int| 0 <= j < i ==> !holds_at(self.sessions@, j, who),
            decreases self.sessions.len() - i,
        {
            if self.sessions[i].has_participant(who) {
                proof {
                    lemma_lookup(self.sessions@, i as int, who);
                }
                return Some(i);
            }
            i += 1;
        }
        proof {
            if self@.dom().contains(who) {
                let j = choose|j: int| holds_at(self.sessions@, j, who);
                assert(holds_at(self.sessions@, j, who));
            }
        }
        None
    }

    /// Whether the participant is in a game.
    pub fn is_playing(&self, who: u64) -> (r: bool)
        requires
            self.wf(),
        ensures
            r == self@.dom().contains(who),
    {
        self.find(who).is_some()
    }

    /// Starts a game between `a` and `b`, in which `a` plays the preferred
    /// colour.
    ///
    /// Nothing is started, and nothing changes, where either is in a game
    /// already or where the two are the same participant.
    pub fn start_session(&mut self, a: u64, b: u64, preferred_color: Color) -> (r: Result<
        (),
        StartError,
    >)
        requires
            old(self).wf(),
        ensures
            final(self).wf(),
            r == start_result(old(self)@, a, b),
            r is Err ==> final(self)@ == old(self)@,
            r is Ok ==> {
                let white = white_of(a, b, preferred_color);
                let black = black_of(a, b, preferred_color);
                &&& final(self)@.dom().contains(white)
                &&& final(self)@[white].is_fresh(white, black)
                &&& final(self)@ == with_session(old(self)@, final(self)@[white])
            },
    {
        if self.find(a).is_some() || self.find(b).is_some() {
            return Err(StartError::AlreadyInGame);
        }
        if a == b {
            return Err(StartError::InvalidOpponent);
        }
        let session = match preferred_color {
            Color::White => GameSession::start(a, b),
            Color::Black => GameSession::start(b, a),
        };
        proof {
            lemma_push(self.sessions@, session);
        }
        self.sessions.push(session);
        Ok(())
    }

    /// Takes the session that the participant is in out of the registry.
    ///
    /// Until it is handed back, neither of its participants is found in the
    /// registry.
    pub fn checkout(&mut self, participant: u64) -> (r: Option<GameSession>)
        requires
            old(self).wf(),
        ensures
            final(self).wf(),
            match r {
                Some(session) => {
                    &&& old(self)@.dom().contains(participant)
                    &&& session@ == old(self)@[participant]
                    &&& final(self)@ == without_session(old(self)@, session@)
                },
                None => !old(self)@.dom().contains(participant) && final(self)@ == old(self)@,
            },
    {
        match self.find(participant) {
            Some(i) => {
                proof {
                    lemma_remove(self.sessions@, i as int);
                }
                Some(self.sessions.remove(i))
            },
            None => None,
        }
    }

    /// Hands a session back that was taken out: it is entered again unless
    /// its game is over, in which case it is dropped.
    pub fn checkin(&mut self, session: GameSession)
        requires
            old(self).wf(),
            session@.wf(),
            !old(self)@.dom().contains(session@.participant_white),
            !old(self)@.dom().contains(session@.participant_black),
        ensures
            final(self).wf(),
            final(self)@ == after_checkin(old(self)@, session@),
    {
        if !session.is_concluded() {
            proof {
                lemma_push(self.sessions@, session);
            }
            self.sessions.push(session);
        }
    }

    /// Plays the move that `mover` wrote in the game that `mover` is in.
    ///
    /// The session is taken out for the attempt and handed back after it. A
    /// rejected move leaves the registry as it was; an accepted one leaves the
    /// session in its new state, or takes it out for good where the move
    /// ended the game.
    pub fn play(&mut self, mover: u64, move_string: &str) -> (r: Result<MoveReport, CommandError>)
        requires
            old(self).wf(),
        ensures
            final(self).wf(),
            final(self)@ == after_play(old(self)@, mover, move_string@),
            match play_result(old(self)@, mover, move_string@) {
                Ok(played) => {
                    &&& r matches Ok(report)
                    &&& report.played == played
                    &&& report.board@ == old(self)@[mover].after_move(played).board.fen()
                    &&& report.conclusion == old(self)@[mover].after_move(played).conclusion
                },
                Err(reason) => {
                    &&& r == Err::<MoveReport, CommandError>(reason)
                    &&& final(self)@ == old(self)@
                },
            },
    {
        proof {
            self.lemma_view_is_registry();
        }
        let mut session = match self.checkout(mover) {
            Some(session) => session,
            None => {
                return Err(CommandError::NoSession);
            },
        };
        let ghost before = session@;
        let outcome = session.attempt_move(mover, move_string);
        proof {
            lemma_update(old(self)@, before, session@);
        }
        self.checkin(session);
        match outcome {
            Ok(report) => Ok(report),
            Err(reason) => Err(CommandError::Rejected(reason)),
        }
    }

    /// Offers a draw in the name of `by`, or accepts the one the opponent
    /// offered, in the game that `by` is in. An accepted draw ends the game
    /// and takes its session out of the registry.
    pub fn offer_draw(&mut self, by: u64) -> (r: Result<DrawOutcome, CommandError>)
        requires
            old(self).wf(),
        ensures
            final(self).wf(),
            final(self)@ == after_draw_offer(old(self)@, by),
            r == (if old(self)@.dom().contains(by) {
                Ok::<DrawOutcome, CommandError>(old(self)@[by].draw_outcome(by))
            } else {
                Err::<DrawOutcome, CommandError>(CommandError::NoSession)
            }),
            r == Ok::<DrawOutcome, CommandError>(DrawOutcome::Redundant) || r is Err
                ==> final(self)@ == old(self)@,
    {
        proof {
            self.lemma_view_is_registry();
        }
        let mut session = match self.checkout(by) {
            Some(session) => session,
            None => {
                return Err(CommandError::NoSession);
            },
        };
        let ghost before = session@;
        let outcome = session.offer_draw(by);
        proof {
            lemma_update(old(self)@, before, session@);
        }
        self.checkin(session);
        Ok(outcome)
    }

    /// Resigns, in the name of `by`, the game that `by` is in, and takes its
    /// session out of the registry. Says whether there was such a game.
    pub fn resign(&mut self, by: u64) -> (r: bool)
        requires
            old(self).wf(),
        ensures
            final(self).wf(),
            r == old(self)@.dom().contains(by),
            final(self)@ == after_resignation(old(self)@, by),
            r ==> final(self)@ == without_session(old(self)@, old(self)@[by]),
            !r ==> final(self)@ == old(self)@,
    {
        proof {
            self.lemma_view_is_registry();
        }
        let mut session = match self.checkout(by) {
            Some(session) => session,
            None => {
                return false;
            },
        };
        let ghost before = session@;
        session.resign(by);
        proof {
            lemma_update(old(self)@, before, session@);
        }
        self.checkin(session);
        true
    }
}

/// Handing back a session with the participants it was taken out with gives
/// the map in which the session has its new state; the map as it was, where
/// the state is the old one.
proof fn lemma_update(sessions: Map<u64, SessionView>, before: SessionView, after: SessionView)
    requires
        is_registry(sessions),
        sessions.dom().contains(before.participant_white),
        sessions[before.participant_white] == before,
        after.participant_white == before.participant_white,
        after.participant_black == before.participant_black,
    ensures
        after_checkin(without_session(sessions, before), after) == with_update(sessions, after),
        after == before ==> with_update(sessions, after) == sessions,
{
    assert(without_session(sessions, before) =~= without_session(sessions, after));
    if after == before {
        assert(sessions.dom().contains(before.participant_black));
        assert(with_session(without_session(sessions, before), before) =~= sessions);
    }
}

/// One game each: once a game between `a` and `b` has been started, neither
/// can start or be drawn into another, whoever the third participant is and
/// whoever asks.
pub proof fn law_one_game_each(
    sessions: Map<u64, SessionView>,
    a: u64,
    b: u64,
    preferred_color: Color,
    started: SessionView,
    c: u64,
)
    requires
        start_result(sessions, a, b) is Ok,
        started.participant_white == white_of(a, b, preferred_color),
        started.participant_black == black_of(a, b, preferred_color),
    ensures
        start_result(with_session(sessions, started), a, c) == Err::<(), StartError>(
            StartError::AlreadyInGame,
        ),
        start_result(with_session(sessions, started), c, a) == Err::<(), StartError>(
            StartError::AlreadyInGame,
        ),
        start_result(with_session(sessions, started), b, c) == Err::<(), StartError>(
            StartError::AlreadyInGame,
        ),
        start_result(with_session(sessions, started), c, b) == Err::<(), StartError>(
            StartError::AlreadyInGame,
        ),
{
}

/// A command that comes to nothing leaves the registry as it was: a rejected
/// move, and a move, a draw offer or a resignation by someone in no game.
pub proof fn law_failed_command_changes_nothing(
    sessions: Map<u64, SessionView>,
    who: u64,
    text: Seq<char>,
)
    ensures
        play_result(sessions, who, text) is Err ==> after_play(sessions, who, text) == sessions,
        !sessions.dom().contains(who) ==> after_draw_offer(sessions, who) == sessions
            && after_resignation(sessions, who) == sessions,
{
}

/// While a session is taken out, neither of its participants is found in the
/// registry, so that no second command reaches the same game.
pub proof fn law_checked_out_is_absent(sessions: Map<u64, SessionView>, who: u64)
    requires
        is_registry(sessions),
        sessions.dom().contains(who),
    ensures
        !without_session(sessions, sessions[who]).dom().contains(who),
        !without_session(sessions, sessions[who]).dom().contains(sessions[who].participant_white),
        !without_session(sessions, sessions[who]).dom().contains(sessions[who].participant_black),
        with_session(without_session(sessions, sessions[who]), sessions[who]) == sessions,
{
    let session = sessions[who];
    assert(with_session(without_session(sessions, session), session) =~= sessions);
}

} // verus!
