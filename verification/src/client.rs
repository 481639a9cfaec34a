use vstd::prelude::*;

use crate::altered_game::{
    local_algebraic_result, local_game_rel, local_pending_updated, named_player,
    reconciliation_ok, remote_turn_result, AlteredGame,
};
use crate::clock::{GameInstant, WallGameTimePair};
use crate::event::{BughouseClientEvent, BughouseServerEvent, LobbyPlayer, Scores, TurnRecord};
use crate::game::{
    fresh_board, game_stepped, grid_is_start, players_eq, BughouseBoard, BughouseGame,
    BughouseGameStatus, BughouseParticipantId, BughousePlayerId, PlayerInGame, Team,
};
use crate::rules::{BughouseRules, ChessRules};
use crate::turn::{Turn, TurnMode};
use crate::starting::EffectiveStartingPosition;
use crate::turn::TurnError;

verus! {

#[derive(Clone, Copy, PartialEq, Eq, Structural, Debug)]
pub enum TurnCommandError {
    IllegalTurn(TurnError),
    NoGameInProgress,
}

#[derive(Clone, Copy, PartialEq, Eq, Structural, Debug)]
pub enum NotableEvent {
    NoEvent,
    GameStarted,
    OpponentTurnMade,
}

/// A server-side error message, or a divergence between the client's and
/// the server's idea of the game — the latter is fatal to the session.
#[derive(Clone, Debug)]
pub enum EventError {
    ServerReturnedError(String),
    CannotApplyEvent(String),
}

/// Where the client stands in the join/lobby/game lifecycle.
pub enum ContestState {
    Uninitialized,
    Lobby { players: Vec<LobbyPlayer> },
    Game { scores: Scores, alt_game: AlteredGame, time_pair: Option<WallGameTimePair> },
}

impl ContestState {
    pub open spec fn wf(self) -> bool {
        match self {
            ContestState::Game { alt_game, .. } => alt_game.wf(),
            _ => true,
        }
    }
}

/// The aggregated game status after one turn on one board.
pub open spec fn stepped_status(
    g: BughouseGame,
    idx: BughouseBoard,
    t: Turn,
) -> BughouseGameStatus {
    crate::game::aggregated_status(
        g.status,
        crate::board::next_status(
            g.board_spec(idx),
            t,
            crate::board::turn_outcome(g.board_spec(idx), t)->Ok_0.0,
        ),
        idx,
    )
}

/// A confirmed record applies cleanly for the seat `id`: the turn resolves
/// and is legal, and the resulting status is the one the record announces.
pub open spec fn record_step_ok(a0: AlteredGame, id: BughousePlayerId, rec: TurnRecord) -> bool {
    match remote_turn_result(a0, id, rec.turn_algebraic@) {
        Ok(t) => stepped_status(a0.game_confirmed, id.board_idx, t) == rec.game_status,
        Err(_) => false,
    }
}

/// How one confirmed record steps the game in progress: the wall-to-game
/// time anchor is set if absent, the scores are replaced, the named
/// player's turn steps the confirmed game, the speculation is reconciled,
/// and the opponent verdict goes by the seats of the two names.
pub open spec fn remote_record_step(
    a0: AlteredGame,
    tp0: Option<WallGameTimePair>,
    rec: TurnRecord,
    world_now_ms: u64,
    my_name: Seq<char>,
    a1: AlteredGame,
    tp1: Option<WallGameTimePair>,
    s1: Scores,
    is_opp: bool,
) -> bool {
    &&& tp1 == (if tp0 is Some {
        tp0
    } else {
        Some(WallGameTimePair { world_ms: world_now_ms, game_ms: 0 })
    })
    &&& s1 == rec.scores
    &&& a1.my_id == a0.my_id
    &&& a1.piece_drag == a0.piece_drag
    &&& a1.game_confirmed.status == rec.game_status
    &&& (exists|id: BughousePlayerId, t: Turn|
        #[trigger] named_player(a0.game_confirmed, rec.player_name@, id) && remote_turn_result(
            a0,
            id,
            rec.turn_algebraic@,
        ) == Ok::<Turn, crate::turn::TurnError>(t) && #[trigger] game_stepped(
            a0.game_confirmed,
            id.board_idx,
            t,
            TurnMode::Normal,
            rec.time,
            a1.game_confirmed,
        ) && (match a0.my_id {
            BughouseParticipantId::Player(me) => reconciliation_ok(
                if id == me {
                    None
                } else {
                    a0.local_turn
                },
                a0.preturn,
                me,
                a1.game_confirmed,
                rec.time,
                a1.local_turn,
                a1.preturn,
            ),
            BughouseParticipantId::Observer(_) => a1.local_turn == a0.local_turn && a1.preturn
                == a0.preturn,
        }))
    &&& (is_opp ==> exists|pa: BughousePlayerId, pb: BughousePlayerId|
        #[trigger] named_player(a0.game_confirmed, rec.player_name@, pa) && #[trigger] named_player(
            a0.game_confirmed,
            my_name,
            pb,
        ) && pa.board_idx == pb.board_idx && pa.force != pb.force)
}

/// A chain of confirmed records applied in order, with the states visited
/// and each record's opponent verdict.
pub open spec fn remote_chain(
    a0: AlteredGame,
    tp0: Option<WallGameTimePair>,
    s0: Scores,
    recs: Seq<TurnRecord>,
    world_now_ms: u64,
    my_name: Seq<char>,
    states: Seq<(AlteredGame, Option<WallGameTimePair>, Scores)>,
    opps: Seq<bool>,
) -> bool {
    &&& states.len() == recs.len() + 1
    &&& opps.len() == recs.len()
    &&& states[0].0 == a0 && states[0].1 == tp0 && states[0].2 == s0
    &&& (forall|i: int|
        0 <= i < recs.len() ==> remote_record_step(
            states[i].0,
            states[i].1,
            recs[i],
            world_now_ms,
            my_name,
            #[trigger] states[i + 1].0,
            states[i + 1].1,
            states[i + 1].2,
            opps[i],
        ))
}

/// The game-in-progress triple of a contest state (unspecified otherwise).
pub open spec fn game_triple(cs: ContestState) -> (AlteredGame, Option<WallGameTimePair>, Scores) {
    match cs {
        ContestState::Game { alt_game, time_pair, scores } => (alt_game, time_pair, scores),
        _ => vstd::pervasive::arbitrary(),
    }
}

/// A freshly constructed game view for a `GameStarted` event: built from
/// the given rules, position and players, with no speculation, and seated
/// by the client's name (an observer of board A when the name is absent).
pub open spec fn fresh_alt_game(
    a0: AlteredGame,
    chess_rules: ChessRules,
    bughouse_rules: BughouseRules,
    position: crate::starting::EffectiveStartingPosition,
    players: Seq<PlayerInGame>,
    my_name: Seq<char>,
) -> bool {
    &&& a0.local_turn is None && a0.preturn is None && a0.piece_drag is None
    &&& players_eq(a0.game_confirmed.players@, players)
    &&& a0.game_confirmed.starting_position == position
    &&& a0.game_confirmed.status == BughouseGameStatus::Active
    &&& a0.game_confirmed.turn_log@.len() == 0
    &&& fresh_board(a0.game_confirmed.board_a, chess_rules)
    &&& fresh_board(a0.game_confirmed.board_b, chess_rules)
    &&& a0.game_confirmed.board_a.bughouse_rules == Some(bughouse_rules)
    &&& a0.game_confirmed.board_b.bughouse_rules == Some(bughouse_rules)
    &&& a0.game_confirmed.board_a.grid@ == a0.game_confirmed.board_b.grid@
    &&& grid_is_start(a0.game_confirmed.board_a.grid@, crate::starting::position_kinds(position))
    &&& (match a0.my_id {
        BughouseParticipantId::Player(p) => named_player(a0.game_confirmed, my_name, p),
        BughouseParticipantId::Observer(bd) => bd == BughouseBoard::A && (forall|
            id: BughousePlayerId,
        | !(#[trigger] named_player(a0.game_confirmed, my_name, id))),
    })
}

/// The client's whole state: who it is, what it knows of the contest, and
/// the events it wants sent to the server (drained by the transport).
pub struct ClientState {
    pub my_name: String,
    pub my_team: Team,
    pub outgoing: Vec<BughouseClientEvent>,
    pub contest_state: ContestState,
}

impl ClientState {
    pub open spec fn wf(self) -> bool {
        self.contest_state.wf()
    }

    pub fn new(my_name: String, my_team: Team) -> (r: ClientState)
        ensures
            r.wf(),
            r.my_name == my_name,
            r.my_team == my_team,
            r.outgoing@.len() == 0,
            r.contest_state is Uninitialized,
    {
        ClientState {
            my_name,
            my_team,
            outgoing: Vec::new(),
            contest_state: ContestState::Uninitialized,
        }
    }

    pub fn my_name(&self) -> (r: &String)
        ensures
            *r == self.my_name,
    {
        &self.my_name
    }

    pub fn my_team(&self) -> (r: Team)
        ensures
            r == self.my_team,
    {
        self.my_team
    }

    pub fn contest_state(&self) -> (r: &ContestState)
        ensures
            *r == self.contest_state,
    {
        &self.contest_state
    }

    pub fn contest_state_mut(&mut self) -> (r: &mut ContestState)
        ensures
            *r == old(self).contest_state,
            *final(self) == (ClientState { contest_state: *final(r), ..*old(self) }),
    {
        &mut self.contest_state
    }

    /// The next event to send to the server, if any. The transport layer
    /// drains this queue.
    pub fn next_outgoing(&mut self) -> (r: Option<BughouseClientEvent>)
        requires
            old(self).wf(),
        ensures
            final(self).wf(),
            final(self).contest_state == old(self).contest_state,
            match r {
                Some(ev) => old(self).outgoing@.len() > 0 && ev == old(self).outgoing@[0] && final(self).outgoing@ == old(self).outgoing@.drop_first(),
                None => old(self).outgoing@.len() == 0 && final(self).outgoing@ == old(self).outgoing@,
            },
    {
        if self.outgoing.len() > 0 {
            let ev = self.outgoing.remove(0);
            assert(final(self).outgoing@ =~= old(self).outgoing@.drop_first());
            Some(ev)
        } else {
            None
        }
    }

    pub fn join(&mut self)
        requires
            old(self).wf(),
        ensures
            final(self).wf(),
            final(self).contest_state == old(self).contest_state,
            final(self).outgoing@.len() == old(self).outgoing@.len() + 1,
            final(self).outgoing@.last() matches BughouseClientEvent::Join { player_name, team }
                && player_name@ == old(self).my_name@ && team == old(self).my_team,
    {
        let name = self.my_name.clone();
        self.outgoing.push(BughouseClientEvent::Join { player_name: name, team: self.my_team });
    }

    pub fn resign(&mut self)
        requires
            old(self).wf(),
        ensures
            final(self).wf(),
            final(self).contest_state == old(self).contest_state,
            final(self).outgoing@ == old(self).outgoing@.push(BughouseClientEvent::Resign),
    {
        self.outgoing.push(BughouseClientEvent::Resign);
    }

    pub fn next_game(&mut self)
        requires
            old(self).wf(),
        ensures
            final(self).wf(),
            final(self).contest_state == old(self).contest_state,
            final(self).outgoing@ == old(self).outgoing@.push(BughouseClientEvent::NextGame),
    {
        self.outgoing.push(BughouseClientEvent::NextGame);
    }

    pub fn leave(&mut self)
        requires
            old(self).wf(),
        ensures
            final(self).wf(),
            final(self).contest_state == old(self).contest_state,
            final(self).outgoing@ == old(self).outgoing@.push(BughouseClientEvent::Leave),
    {
        self.outgoing.push(BughouseClientEvent::Leave);
    }

    pub fn reset(&mut self)
        requires
            old(self).wf(),
        ensures
            final(self).wf(),
            final(self).contest_state == old(self).contest_state,
            final(self).outgoing@ == old(self).outgoing@.push(BughouseClientEvent::Reset),
    {
        self.outgoing.push(BughouseClientEvent::Reset);
    }

    /// Attempts a turn typed by the player. On success the turn is applied
    /// locally and a `MakeTurn` event is queued for the server.
    pub fn make_turn(&mut self, turn_algebraic: String, world_now_ms: u64) -> (r: Result<
        (),
        TurnCommandError,
    >)
        requires
            old(self).wf(),
        ensures
            final(self).wf(),
            final(self).my_name == old(self).my_name,
            final(self).my_team == old(self).my_team,
            !(old(self).contest_state is Game) ==> r == Err::<(), TurnCommandError>(
                TurnCommandError::NoGameInProgress,
            ) && *final(self) == *old(self),
            (match old(self).contest_state {
                ContestState::Game { alt_game: a0, time_pair: tp0, scores: s0 } => {
                    &&& (a0.game_confirmed.status != BughouseGameStatus::Active ==> r == Err::<
                        (),
                        TurnCommandError,
                    >(TurnCommandError::IllegalTurn(TurnError::GameOver)) && *final(self) == *old(self))
                    &&& (a0.game_confirmed.status == BughouseGameStatus::Active && !(a0.my_id
                        is Player && a0.preturn is None) ==> r == Err::<(), TurnCommandError>(
                        TurnCommandError::IllegalTurn(TurnError::WrongTurnOrder),
                    ) && *final(self) == *old(self))
                    &&& (a0.game_confirmed.status == BughouseGameStatus::Active && a0.my_id
                        is Player && a0.preturn is None ==> exists|lg: BughouseGame|
                        #[trigger] local_game_rel(a0, GameInstant { elapsed_ms: 0 }, lg) && (match 
                        local_algebraic_result(a0, lg, turn_algebraic@) {
                            Ok(t) => r is Ok && (final(self).contest_state
                                matches ContestState::Game { alt_game: a1, time_pair: tp1, scores: s1 }
                                && local_pending_updated(a0, lg, t, a1) && a1.game_confirmed
                                == a0.game_confirmed && tp1 == tp0 && s1 == s0),
                            Err(e) => r == Err::<(), TurnCommandError>(
                                TurnCommandError::IllegalTurn(e),
                            ) && final(self).outgoing == old(self).outgoing,
                        }))
                },
                _ => true,
            }),
            r is Ok ==> final(self).outgoing@.len() == old(self).outgoing@.len() + 1 && (final(
                self).outgoing@.last() matches BughouseClientEvent::MakeTurn { turn_algebraic: s }
                && s@ == turn_algebraic@),
    {
        match &mut self.contest_state {
            ContestState::Game { alt_game, time_pair, .. } => {
                let game_now = match time_pair {
                    Some(pair) => pair.game_instant(world_now_ms),
                    None => GameInstant::game_start(),
                };
                if !matches!(alt_game.status(), BughouseGameStatus::Active) {
                    return Err(TurnCommandError::IllegalTurn(TurnError::GameOver));
                }
                if !alt_game.can_make_local_turn() {
                    return Err(TurnCommandError::IllegalTurn(TurnError::WrongTurnOrder));
                }
                match alt_game.try_local_turn_algebraic(turn_algebraic.as_str(), game_now) {
                    Ok(_) => {},
                    Err(e) => {
                        return Err(TurnCommandError::IllegalTurn(e));
                    },
                }
                self.outgoing.push(BughouseClientEvent::MakeTurn { turn_algebraic });
                Ok(())
            },
            _ => Err(TurnCommandError::NoGameInProgress),
        }
    }

    /// Applies one confirmed turn from the server to the game in progress.
    /// Returns whether the turn was made by the client's opponent.
    fn apply_remote_turn(&mut self, record: &TurnRecord, world_now_ms: u64) -> (r: Result<
        bool,
        EventError,
    >)
        requires
            old(self).wf(),
        ensures
            final(self).wf(),
            final(self).my_name == old(self).my_name,
            final(self).my_team == old(self).my_team,
            final(self).outgoing == old(self).outgoing,
            !(old(self).contest_state is Game) ==> r is Err && *final(self) == *old(self),
            (match old(self).contest_state {
                ContestState::Game { alt_game: a0, time_pair: tp0, scores: s0 } => {
                    &&& (r matches Ok(b) ==> (final(self).contest_state matches ContestState::Game {
                        alt_game: a1,
                        time_pair: tp1,
                        scores: s1,
                    } && remote_record_step(
                        a0,
                        tp0,
                        *record,
                        world_now_ms,
                        old(self).my_name@,
                        a1,
                        tp1,
                        s1,
                        b,
                    )))
                    &&& (a0.game_confirmed.status == BughouseGameStatus::Active && (exists|
                        id: BughousePlayerId,
                    | #[trigger] named_player(a0.game_confirmed, record.player_name@, id)) && (forall|
                        id: BughousePlayerId,
                    |
                        #[trigger] named_player(a0.game_confirmed, record.player_name@, id)
                            ==> record_step_ok(a0, id, *record)) ==> r is Ok)
                    &&& (r is Err ==> a0.game_confirmed.status != BughouseGameStatus::Active || (
                    forall|id: BughousePlayerId|
                        !(#[trigger] named_player(a0.game_confirmed, record.player_name@, id))) || (
                    exists|id: BughousePlayerId|
                        #[trigger] named_player(a0.game_confirmed, record.player_name@, id)
                            && !record_step_ok(a0, id, *record)))
                },
                _ => true,
            }),
    {
        match &mut self.contest_state {
            ContestState::Game { alt_game, time_pair, scores } => {
                if !matches!(alt_game.status(), BughouseGameStatus::Active) {
                    return Err(
                        EventError::CannotApplyEvent(String::from_str("turn after game over")),
                    );
                }
                if time_pair.is_none() {
                    *time_pair = Some(WallGameTimePair::new(world_now_ms, 0));
                }
                let ghost a0 = *alt_game;
                let player_id = match alt_game.game_confirmed().find_player(
                    record.player_name.as_str(),
                ) {
                    Some(id) => id,
                    None => {
                        proof {
                            assert forall|id: BughousePlayerId|
                                !(#[trigger] named_player(
                                    a0.game_confirmed,
                                    record.player_name@,
                                    id,
                                )) by {
                                if named_player(a0.game_confirmed, record.player_name@, id) {
                                    let j = choose|j: int|
                                        0 <= j < a0.game_confirmed.players@.len()
                                            && a0.game_confirmed.players@[j].name@
                                            == record.player_name@
                                            && a0.game_confirmed.players@[j].id == id;
                                    assert(a0.game_confirmed.players@[j].name@
                                        != record.player_name@);
                                }
                            }
                        }
                        return Err(
                            EventError::CannotApplyEvent(String::from_str("unknown player")),
                        );
                    },
                };
                proof {
                    assert(named_player(a0.game_confirmed, record.player_name@, player_id));
                }
                let applied = match alt_game.apply_remote_turn_algebraic(
                    player_id,
                    record.turn_algebraic.as_str(),
                    record.time,
                ) {
                    Ok(t) => t,
                    Err(_) => {
                        proof {
                            assert(!record_step_ok(a0, player_id, *record));
                        }
                        return Err(
                            EventError::CannotApplyEvent(String::from_str("impossible turn")),
                        );
                    },
                };
                proof {
                    assert(stepped_status(a0.game_confirmed, player_id.board_idx, applied)
                        == alt_game.game_confirmed.status) by {
                        assert(game_stepped(
                            a0.game_confirmed,
                            player_id.board_idx,
                            applied,
                            TurnMode::Normal,
                            record.time,
                            alt_game.game_confirmed,
                        ));
                    }
                }
                if record.game_status != alt_game.status() {
                    proof {
                        assert(!record_step_ok(a0, player_id, *record));
                    }
                    return Err(
                        EventError::CannotApplyEvent(
                            String::from_str("game status does not match"),
                        ),
                    );
                }
                *scores = record.scores;
                let ghost a1 = *alt_game;
                let is_opponent = match alt_game.are_opponents(
                    record.player_name.as_str(),
                    self.my_name.as_str(),
                ) {
                    Some(b) => b,
                    None => false,
                };
                proof {
                    if is_opponent {
                        // The names resolve in the stepped game; the step
                        // keeps the player list, so they resolve the same
                        // way in the original.
                        let (pa, pb) = choose|pa: BughousePlayerId, pb: BughousePlayerId|
                            named_player(a1.game_confirmed, record.player_name@, pa)
                                && named_player(a1.game_confirmed, self.my_name@, pb)
                                && is_opponent == (pa.board_idx == pb.board_idx && pa.force
                                != pb.force);
                        let j = choose|j: int|
                            0 <= j < a1.game_confirmed.players@.len()
                                && a1.game_confirmed.players@[j].name@ == record.player_name@
                                && a1.game_confirmed.players@[j].id == pa;
                        assert(crate::game::player_eq(
                            a1.game_confirmed.players@[j],
                            a0.game_confirmed.players@[j],
                        ));
                        assert(named_player(a0.game_confirmed, record.player_name@, pa));
                        let k = choose|k: int|
                            0 <= k < a1.game_confirmed.players@.len()
                                && a1.game_confirmed.players@[k].name@ == self.my_name@
                                && a1.game_confirmed.players@[k].id == pb;
                        assert(crate::game::player_eq(
                            a1.game_confirmed.players@[k],
                            a0.game_confirmed.players@[k],
                        ));
                        assert(named_player(a0.game_confirmed, self.my_name@, pb));
                    }
                }
                Ok(is_opponent)
            },
            _ => Err(EventError::CannotApplyEvent(String::from_str("no game in progress"))),
        }
    }

    /// Digests one server event, driving the join/lobby/game lifecycle, and
    /// reports anything a user interface would want to react to.
    #[verifier::loop_isolation(false)]
    #[verifier::rlimit(100)]
    pub fn process_server_event(&mut self, event: BughouseServerEvent, world_now_ms: u64) -> (r:
        Result<NotableEvent, EventError>)
        requires
            old(self).wf(),
        ensures
            final(self).wf(),
            event matches BughouseServerEvent::Error { message } ==> (r matches Err(
                EventError::ServerReturnedError(m),
            ) && m@ == message@),
            (event matches BughouseServerEvent::LobbyUpdated { players } && r is Ok) ==> (final(
                self).contest_state matches ContestState::Lobby { players: ps } && (event matches
                BughouseServerEvent::LobbyUpdated { players: evps } && ps@ == evps@)),
            event matches BughouseServerEvent::GameStarted {
                chess_rules,
                bughouse_rules,
                starting_position,
                players,
                time,
                turn_log,
                scores,
            } ==> r is Err || r == Ok::<NotableEvent, EventError>(NotableEvent::GameStarted) && (
            final(self).contest_state matches ContestState::Game {
                alt_game: a1,
                time_pair: tp1,
                scores: s1,
            } && (tp1 is Some <==> turn_log@.len() > 0) && tp1 == (if turn_log@.len() == 0 {
                None
            } else {
                Some(WallGameTimePair { world_ms: world_now_ms, game_ms: time.elapsed_ms })
            }) && (exists|
                a0: AlteredGame,
                states: Seq<(AlteredGame, Option<WallGameTimePair>, Scores)>,
                opps: Seq<bool>,
            |
                #[trigger] remote_chain(
                    a0,
                    tp1,
                    scores,
                    turn_log@,
                    world_now_ms,
                    old(self).my_name@,
                    states,
                    opps,
                ) && fresh_alt_game(
                    a0,
                    chess_rules,
                    bughouse_rules,
                    starting_position,
                    players@,
                    old(self).my_name@,
                ) && states.last().0 == a1 && states.last().1 == tp1 && states.last().2 == s1)),
            event matches BughouseServerEvent::TurnsMade(recs) ==> (match old(self).contest_state {
                ContestState::Game { alt_game: a0, time_pair: tp0, scores: s0 } => r is Ok
                    ==> exists|
                    states: Seq<(AlteredGame, Option<WallGameTimePair>, Scores)>,
                    opps: Seq<bool>,
                |
                    #[trigger] remote_chain(
                        a0,
                        tp0,
                        s0,
                        recs@,
                        world_now_ms,
                        old(self).my_name@,
                        states,
                        opps,
                    ) && (final(self).contest_state matches ContestState::Game {
                        alt_game: a1,
                        time_pair: tp1,
                        scores: s1,
                    } && states.last().0 == a1 && states.last().1 == tp1 && states.last().2 == s1)
                        && r == Ok::<NotableEvent, EventError>(
                        if (exists|k: int| 0 <= k < opps.len() && opps[k]) {
                            NotableEvent::OpponentTurnMade
                        } else {
                            NotableEvent::NoEvent
                        },
                    ),
                _ => r is Err,
            }),
            event matches BughouseServerEvent::GameOver { time, game_status, scores: ns } ==> (
            match old(self).contest_state {
                ContestState::Game { .. } => (game_status == BughouseGameStatus::Active ==> r
                    is Err) && ((game_status != BughouseGameStatus::Active && r is Ok) ==> (final(self).contest_state matches ContestState::Game { alt_game: a1, scores: s1, .. }
                    && a1.game_confirmed.status == game_status && a1.local_turn is None
                    && a1.preturn is None && a1.piece_drag is None && s1 == ns)),
                _ => r is Err,
            }),
    {
        match event {
            BughouseServerEvent::Error { message } => {
                return Err(EventError::ServerReturnedError(message));
            },
            BughouseServerEvent::LobbyUpdated { players } => {
                self.contest_state = ContestState::Lobby { players };
                return Ok(NotableEvent::NoEvent);
            },
            BughouseServerEvent::GameStarted {
                chess_rules,
                bughouse_rules,
                starting_position,
                players,
                time,
                turn_log,
                scores,
            } => {
                if !(bughouse_rules.min_pawn_drop_row >= 1 && bughouse_rules.min_pawn_drop_row
                    <= bughouse_rules.max_pawn_drop_row && bughouse_rules.max_pawn_drop_row <= 8) {
                    return Err(EventError::CannotApplyEvent(String::from_str("bad rules")));
                }
                if !starting_position_valid(&starting_position) {
                    return Err(
                        EventError::CannotApplyEvent(String::from_str("bad starting position")),
                    );
                }
                let game = BughouseGame::new_with_starting_position(
                    chess_rules,
                    bughouse_rules,
                    starting_position,
                    &players,
                );
                let my_id = match game.find_player(self.my_name.as_str()) {
                    Some(id) => BughouseParticipantId::Player(id),
                    None => BughouseParticipantId::Observer(BughouseBoard::A),
                };
                let time_pair = if turn_log.len() == 0 {
                    None
                } else {
                    Some(WallGameTimePair::new(world_now_ms, time.elapsed_since_start()))
                };
                let alt_game = AlteredGame::new(my_id, game);
                let ghost a0 = alt_game;
                let ghost tp_start = time_pair;
                let ghost s_start = scores;
                proof {
                    match a0.my_id {
                        BughouseParticipantId::Player(p) => {
                            assert(named_player(a0.game_confirmed, old(self).my_name@, p));
                        },
                        BughouseParticipantId::Observer(_) => {
                            assert forall|id: BughousePlayerId|
                                !(#[trigger] named_player(
                                    a0.game_confirmed,
                                    old(self).my_name@,
                                    id,
                                )) by {
                                if named_player(a0.game_confirmed, old(self).my_name@, id) {
                                    let j = choose|j: int|
                                        0 <= j < a0.game_confirmed.players@.len()
                                            && a0.game_confirmed.players@[j].name@ == old(
                                            self,
                                        ).my_name@ && a0.game_confirmed.players@[j].id == id;
                                    assert(a0.game_confirmed.players@[j].name@ != old(
                                        self,
                                    ).my_name@);
                                }
                            }
                        },
                    }
                    assert(fresh_alt_game(
                        a0,
                        chess_rules,
                        bughouse_rules,
                        starting_position,
                        players@,
                        old(self).my_name@,
                    ));
                }
                self.contest_state = ContestState::Game { scores, alt_game, time_pair };
                let ghost mut states: Seq<(AlteredGame, Option<WallGameTimePair>, Scores)> = seq![
                    (a0, tp_start, s_start),
                ];
                let ghost mut opps: Seq<bool> = Seq::empty();
                let mut i: usize = 0;
                while i < turn_log.len()
                    invariant
                        i <= turn_log@.len(),
                        self.wf(),
                        self.my_name == old(self).my_name,
                        states.len() == i + 1,
                        opps.len() == i,
                        states[0].0 == a0 && states[0].1 == tp_start && states[0].2 == s_start,
                        self.contest_state matches ContestState::Game {
                            alt_game: ac,
                            time_pair: tpc,
                            scores: sc,
                        } && states.last().0 == ac && states.last().1 == tpc && states.last().2
                            == sc,
                        states.last().1 == tp_start,
                        forall|k: int|
                            0 <= k < i ==> remote_record_step(
                                states[k].0,
                                states[k].1,
                                turn_log@[k],
                                world_now_ms,
                                old(self).my_name@,
                                #[trigger] states[k + 1].0,
                                states[k + 1].1,
                                states[k + 1].2,
                                opps[k],
                            ),
                    decreases turn_log@.len() - i,
                {
                    match self.apply_remote_turn(&turn_log[i], world_now_ms) {
                        Ok(is_opponent) => {
                            proof {
                                states = states.push(game_triple(self.contest_state));
                                opps = opps.push(is_opponent);
                            }
                        },
                        Err(e) => {
                            return Err(e);
                        },
                    }
                    i = i + 1;
                }
                proof {
                    let tp_spec: Option<WallGameTimePair> = if turn_log@.len() == 0 {
                        None
                    } else {
                        Some(WallGameTimePair { world_ms: world_now_ms, game_ms: time.elapsed_ms })
                    };
                    assert(tp_start == tp_spec);
                    assert(game_triple(self.contest_state).1 == tp_start);
                    assert(remote_chain(
                        a0,
                        game_triple(self.contest_state).1,
                        scores,
                        turn_log@,
                        world_now_ms,
                        old(self).my_name@,
                        states,
                        opps,
                    ));
                }
                return Ok(NotableEvent::GameStarted);
            },
            BughouseServerEvent::TurnsMade(records) => {
                let ghost (a0, tp0, s0) = game_triple(old(self).contest_state);
                if !matches!(self.contest_state, ContestState::Game { .. }) {
                    return Err(
                        EventError::CannotApplyEvent(String::from_str("no game in progress")),
                    );
                }
                let mut opponent_turn_made = false;
                let ghost mut states: Seq<(AlteredGame, Option<WallGameTimePair>, Scores)> = seq![
                    (a0, tp0, s0),
                ];
                let ghost mut opps: Seq<bool> = Seq::empty();
                let mut i: usize = 0;
                while i < records.len()
                    invariant
                        i <= records@.len(),
                        self.wf(),
                        self.my_name == old(self).my_name,
                        states.len() == i + 1,
                        opps.len() == i,
                        states[0].0 == a0 && states[0].1 == tp0 && states[0].2 == s0,
                        self.contest_state matches ContestState::Game {
                            alt_game: ac,
                            time_pair: tpc,
                            scores: sc,
                        } && states.last().0 == ac && states.last().1 == tpc && states.last().2
                            == sc,
                        forall|k: int|
                            0 <= k < i ==> remote_record_step(
                                states[k].0,
                                states[k].1,
                                records@[k],
                                world_now_ms,
                                old(self).my_name@,
                                #[trigger] states[k + 1].0,
                                states[k + 1].1,
                                states[k + 1].2,
                                opps[k],
                            ),
                        opponent_turn_made == (exists|k: int| 0 <= k < opps.len() && opps[k]),
                    decreases records@.len() - i,
                {
                    let ghost pre_opps = opps;
                    match self.apply_remote_turn(&records[i], world_now_ms) {
                        Ok(is_opponent) => {
                            proof {
                                states = states.push(game_triple(self.contest_state));
                                opps = opps.push(is_opponent);
                            }
                            if is_opponent {
                                opponent_turn_made = true;
                            }
                            proof {
                                assert(opps[opps.len() - 1] == is_opponent);
                                assert(forall|k: int|
                                    0 <= k < pre_opps.len() ==> opps[k] == pre_opps[k]);
                                if opponent_turn_made {
                                    assert(exists|k: int| 0 <= k < opps.len() && opps[k]) by {
                                        if is_opponent {
                                            assert(opps[opps.len() - 1]);
                                        } else {
                                            let k0 = choose|k: int|
                                                0 <= k < pre_opps.len() && pre_opps[k];
                                            assert(opps[k0]);
                                        }
                                    }
                                } else {
                                    assert forall|k: int| 0 <= k < opps.len() implies !opps[k] by {
                                        if k < pre_opps.len() {
                                            assert(!pre_opps[k]);
                                        }
                                    }
                                }
                            }
                        },
                        Err(e) => {
                            return Err(e);
                        },
                    }
                    i = i + 1;
                }
                proof {
                    assert(remote_chain(
                        a0,
                        tp0,
                        s0,
                        records@,
                        world_now_ms,
                        old(self).my_name@,
                        states,
                        opps,
                    ));
                }
                if opponent_turn_made {
                    return Ok(NotableEvent::OpponentTurnMade);
                } else {
                    return Ok(NotableEvent::NoEvent);
                }
            },
            BughouseServerEvent::GameOver { time, game_status, scores: new_scores } => {
                match &mut self.contest_state {
                    ContestState::Game { alt_game, scores, .. } => {
                        alt_game.reset_local_changes();
                        if matches!(game_status, BughouseGameStatus::Active) {
                            return Err(
                                EventError::CannotApplyEvent(
                                    String::from_str("game over with active status"),
                                ),
                            );
                        }
                        alt_game.set_status(game_status, time);
                        *scores = new_scores;
                        return Ok(NotableEvent::NoEvent);
                    },
                    _ => {
                        return Err(
                            EventError::CannotApplyEvent(String::from_str("no game in progress")),
                        );
                    },
                }
            },
        }
    }
}

/// Runtime validation of a starting position received over the wire.
fn starting_position_valid(position: &EffectiveStartingPosition) -> (r: bool)
    ensures
        r == position.wf(),
{
    match position {
        EffectiveStartingPosition::Classic => {
            proof {
                crate::starting::lemma_classic_layout_ok();
            }
            true
        },
        EffectiveStartingPosition::FischerRandom(pieces) => {
            let ghost s = pieces@;
            let mut king: Option<usize> = None;
            let mut valid = true;
            let mut i: usize = 0;
            while i < 8
                invariant
                    i <= 8,
                    s == pieces@,
                    s.len() == 8,
                    match king {
                        Some(k) => k < i && s[k as int] == crate::piece::PieceKind::King,
                        None => forall|p: int| 0 <= p < i ==> s[p] != crate::piece::PieceKind::King,
                    },
                    valid <==> ((forall|p: int|
                        0 <= p < i ==> s[p] != crate::piece::PieceKind::Pawn) && (forall|
                        p: int,
                        q: int,
                    |
                        0 <= p < i && 0 <= q < i && s[p] == crate::piece::PieceKind::King && s[q]
                            == crate::piece::PieceKind::King ==> p == q)),
                decreases 8 - i,
            {
                let k = pieces[i];
                if k == crate::piece::PieceKind::King {
                    match king {
                        None => {
                            king = Some(i);
                        },
                        Some(k0) => {
                            proof {
                                assert(s[k0 as int] == crate::piece::PieceKind::King && s[i as int]
                                    == crate::piece::PieceKind::King && k0 != i);
                            }
                            valid = false;
                        },
                    }
                } else if k == crate::piece::PieceKind::Pawn {
                    valid = false;
                }
                i = i + 1;
            }
            valid && king.is_some()
        },
    }
}

} // verus!
