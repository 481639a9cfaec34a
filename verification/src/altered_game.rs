use vstd::prelude::*;

use crate::clock::GameInstant;
use crate::coord::{spec_subjective_row, subjective_row_to_row, Coord};
use crate::force::Force;
use crate::game::{
    apply_turn_result, game_stepped, game_turn_result, players_eq, record_eq,
    same_board_but_grid, BughouseBoard, BughouseGame, BughouseGameStatus, BughouseParticipantId,
    BughousePlayerId, log_eq,
};
use crate::grid::at;
use crate::piece::PieceKind;
use crate::turn::{Turn, TurnDrop, TurnError, TurnInput, TurnMode, TurnMove};

verus! {

/// Where a drag begins: a square of the player's board, or their reserve.
#[derive(Clone, Copy, PartialEq, Eq, Structural, Debug)]
pub enum PieceDragStart {
    Board(Coord),
    Reserve(PieceKind),
}

#[derive(Clone, Copy, PartialEq, Eq, Structural, Debug)]
pub enum PieceDragError {
    DragForbidden,
    DragAlreadyStarted,
    NoDragInProgress,
    DragNoLongerPossible,
    DragIllegalDestination,
}

/// An ongoing drag: where it started and what is being dragged.
#[derive(Clone, Copy, PartialEq, Eq, Structural, Debug)]
pub struct PieceDrag {
    pub source: PieceDragStart,
    pub piece_kind: PieceKind,
}

/// Two games with the same observable state.
pub open spec fn game_equiv(a: BughouseGame, b: BughouseGame) -> bool {
    &&& a.board_a.grid@ == b.board_a.grid@
    &&& a.board_b.grid@ == b.board_b.grid@
    &&& same_board_but_grid(a.board_a, b.board_a)
    &&& same_board_but_grid(a.board_b, b.board_b)
    &&& players_eq(a.players@, b.players@)
    &&& a.status == b.status
    &&& log_eq(a.turn_log@, b.turn_log@)
    &&& a.starting_position == b.starting_position
}

/// `g2` is `g` with an optional speculative turn of the seated player
/// applied: as a normal turn when it is their turn, as a pre-turn
/// otherwise; a turn that no longer applies changes nothing.
pub open spec fn speculative_applied(
    g: BughouseGame,
    me: BughousePlayerId,
    t_opt: Option<Turn>,
    now: GameInstant,
    g2: BughouseGame,
) -> bool {
    match t_opt {
        None => game_equiv(g2, g),
        Some(t) => {
            let mode = if g.board_spec(me.board_idx).active_force == me.force {
                TurnMode::Normal
            } else {
                TurnMode::Preturn
            };
            match apply_turn_result(g, me.board_idx, t, mode) {
                Ok(_) => game_stepped(g, me.board_idx, t, mode, now, g2),
                Err(_) => game_equiv(g2, g),
            }
        },
    }
}

/// The derived local game: the confirmed game with the pending local turn
/// and then the pending pre-turn speculatively applied.
pub open spec fn local_game_rel(alt: AlteredGame, now: GameInstant, lg: BughouseGame) -> bool {
    match alt.my_id {
        BughouseParticipantId::Player(me) => exists|mid: BughouseGame|
            #[trigger] speculative_applied(alt.game_confirmed, me, alt.local_turn, now, mid)
                && speculative_applied(mid, me, alt.preturn, now, lg),
        BughouseParticipantId::Observer(_) => game_equiv(lg, alt.game_confirmed),
    }
}

/// The mode a speculative turn of the seated player would apply in on `g`:
/// a normal turn when it is their turn, a pre-turn otherwise.
pub open spec fn cand_mode(g: BughouseGame, me: BughousePlayerId) -> TurnMode {
    if g.board_spec(me.board_idx).active_force == me.force {
        TurnMode::Normal
    } else {
        TurnMode::Preturn
    }
}

/// A speculative turn of the seated player still applies on `g`.
pub open spec fn cand_ok(g: BughouseGame, me: BughousePlayerId, t: Turn) -> bool {
    apply_turn_result(g, me.board_idx, t, cand_mode(g, me)) is Ok
}

/// What attempting a turn input locally returns, given the local view `lg`:
/// a normal turn when it is the player's turn and no local turn is pending,
/// the pre-turn limit error when a pre-turn is already queued, and a queued
/// pre-turn otherwise.
pub open spec fn local_turn_result(alt: AlteredGame, lg: BughouseGame, input: TurnInput) -> Result<
    Turn,
    TurnError,
> {
    match alt.my_id {
        BughouseParticipantId::Observer(_) => Err(TurnError::WrongTurnOrder),
        BughouseParticipantId::Player(me) => {
            if cand_mode(lg, me) == TurnMode::Normal && alt.local_turn is None {
                game_turn_result(lg, me.board_idx, input, TurnMode::Normal)
            } else if alt.preturn is Some {
                Err(TurnError::PreturnLimitReached)
            } else {
                game_turn_result(lg, me.board_idx, input, TurnMode::Preturn)
            }
        },
    }
}

/// The character-level image of a `try_turn` with algebraic input.
pub open spec fn algebraic_apply_result(
    g: BughouseGame,
    idx: BughouseBoard,
    cs: Seq<char>,
    mode: TurnMode,
) -> Result<Turn, TurnError> {
    if mode == TurnMode::Normal && g.status != BughouseGameStatus::Active {
        Err(TurnError::GameOver)
    } else {
        let b = g.board_spec(idx);
        let force = match mode {
            TurnMode::Normal => b.active_force,
            TurnMode::Preturn => b.active_force.opponent(),
        };
        match crate::algebraic::algebraic_turn_spec(b.grid@, force, b.last_turn, cs) {
            Err(e) => Err(e),
            Ok(t) => match apply_turn_result(g, idx, t, mode) {
                Err(e) => Err(e),
                Ok(_) => Ok(t),
            },
        }
    }
}

/// The character-level image of `local_turn_result`.
pub open spec fn local_algebraic_result(alt: AlteredGame, lg: BughouseGame, cs: Seq<char>) -> Result<
    Turn,
    TurnError,
> {
    match alt.my_id {
        BughouseParticipantId::Observer(_) => Err(TurnError::WrongTurnOrder),
        BughouseParticipantId::Player(me) => {
            if cand_mode(lg, me) == TurnMode::Normal && alt.local_turn is None {
                algebraic_apply_result(lg, me.board_idx, cs, TurnMode::Normal)
            } else if alt.preturn is Some {
                Err(TurnError::PreturnLimitReached)
            } else {
                algebraic_apply_result(lg, me.board_idx, cs, TurnMode::Preturn)
            }
        },
    }
}

/// Which pending slot a successful local attempt fills.
pub open spec fn local_pending_updated(
    alt0: AlteredGame,
    lg: BughouseGame,
    t: Turn,
    alt1: AlteredGame,
) -> bool {
    match alt0.my_id {
        BughouseParticipantId::Observer(_) => false,
        BughouseParticipantId::Player(me) => if cand_mode(lg, me) == TurnMode::Normal
            && alt0.local_turn is None {
            alt1.local_turn == Some(t) && alt1.preturn == alt0.preturn
        } else {
            alt1.preturn == Some(t) && alt1.local_turn == alt0.local_turn
        },
    }
}

/// The pending speculation after re-validating the two old candidates
/// against the freshly confirmed game `c1`: a candidate that still applies
/// is kept — in the local slot when it is now the player's turn, as the
/// pre-turn otherwise — and a candidate that no longer applies is dropped;
/// `g1` witnesses the state after the first candidate.
pub open spec fn reconciled_pending(
    lt: Option<Turn>,
    pt: Option<Turn>,
    me: BughousePlayerId,
    c1: BughouseGame,
    now: GameInstant,
    g1: BughouseGame,
    lfin: Option<Turn>,
    pfin: Option<Turn>,
) -> bool {
    &&& speculative_applied(c1, me, lt, now, g1)
    &&& {
        let l1: Option<Turn> = if lt matches Some(t) && cand_mode(c1, me) == TurnMode::Normal
            && cand_ok(c1, me, t) {
            lt
        } else {
            None
        };
        let p1: Option<Turn> = if lt matches Some(t) && cand_mode(c1, me) == TurnMode::Preturn
            && cand_ok(c1, me, t) {
            lt
        } else {
            None
        };
        match pt {
            None => lfin == l1 && pfin == p1,
            Some(t2) => {
                let my2 = cand_mode(g1, me) == TurnMode::Normal;
                if my2 && l1 is Some {
                    lfin == l1 && pfin == p1
                } else if p1 is Some {
                    lfin == l1 && pfin == p1
                } else if cand_ok(g1, me, t2) {
                    if my2 {
                        lfin == Some(t2) && pfin == p1
                    } else {
                        lfin == l1 && pfin == Some(t2)
                    }
                } else {
                    lfin == l1 && pfin == p1
                }
            },
        }
    }
}

/// What starting a drag yields, given the local view `lg`: the drag record
/// on success, or the error that refuses it.
pub open spec fn start_drag_outcome(
    alt: AlteredGame,
    lg: BughouseGame,
    start: PieceDragStart,
) -> Result<PieceDrag, PieceDragError> {
    match alt.my_id {
        BughouseParticipantId::Observer(_) => Err(PieceDragError::DragForbidden),
        BughouseParticipantId::Player(me) => {
            if alt.piece_drag is Some {
                Err(PieceDragError::DragAlreadyStarted)
            } else {
                match start {
                    PieceDragStart::Board(c) => {
                        if !c.wf() {
                            Err(PieceDragError::DragIllegalDestination)
                        } else {
                            match at(lg.board_spec(me.board_idx).grid@, c) {
                                Some(p) => if p.force == me.force {
                                    Ok(PieceDrag { source: start, piece_kind: p.kind })
                                } else {
                                    Err(PieceDragError::DragIllegalDestination)
                                },
                                None => Err(PieceDragError::DragIllegalDestination),
                            }
                        }
                    },
                    PieceDragStart::Reserve(kind) => {
                        if lg.board_spec(me.board_idx).reserve(me.force).get(kind) >= 1 {
                            Ok(PieceDrag { source: start, piece_kind: kind })
                        } else {
                            Err(PieceDragError::DragIllegalDestination)
                        }
                    },
                }
            }
        },
    }
}

/// What dropping the dragged piece yields, given the local view `lg`: the
/// turn input to attempt, or the error that refuses the drop — in
/// particular `DragNoLongerPossible` exactly when the dragged piece no
/// longer stands at the source.
pub open spec fn drag_drop_result(
    alt: AlteredGame,
    lg: BughouseGame,
    dest: Coord,
    promote_to: PieceKind,
) -> Result<TurnInput, PieceDragError> {
    match alt.my_id {
        BughouseParticipantId::Observer(_) => Err(PieceDragError::DragForbidden),
        BughouseParticipantId::Player(me) => match alt.piece_drag {
            None => Err(PieceDragError::NoDragInProgress),
            Some(drag) => {
                if !dest.wf() {
                    Err(PieceDragError::DragIllegalDestination)
                } else {
                    match drag.source {
                        PieceDragStart::Board(src) => {
                            if !src.wf() {
                                Err(PieceDragError::DragNoLongerPossible)
                            } else if src == dest {
                                Err(PieceDragError::DragIllegalDestination)
                            } else {
                                match at(lg.board_spec(me.board_idx).grid@, src) {
                                    Some(piece) => if piece.force == me.force && piece.kind
                                        == drag.piece_kind {
                                        Ok(
                                            TurnInput::DragDrop(
                                                Turn::Move(
                                                    TurnMove {
                                                        from: src,
                                                        to: dest,
                                                        promote_to: if drag.piece_kind
                                                            == PieceKind::Pawn && dest.row
                                                            == spec_subjective_row(8, me.force) {
                                                            Some(promote_to)
                                                        } else {
                                                            None
                                                        },
                                                    },
                                                ),
                                            ),
                                        )
                                    } else {
                                        Err(PieceDragError::DragNoLongerPossible)
                                    },
                                    None => Err(PieceDragError::DragNoLongerPossible),
                                }
                            }
                        },
                        PieceDragStart::Reserve(kind) => Ok(
                            TurnInput::DragDrop(Turn::Drop(TurnDrop { piece_kind: kind, to: dest })),
                        ),
                    }
                }
            },
        },
    }
}

/// What applying an authoritative remote turn returns: rejected out of
/// order or after the game ended, else resolved and applied as a normal
/// turn on the named board.
pub open spec fn remote_turn_result(
    alt: AlteredGame,
    player_id: BughousePlayerId,
    cs: Seq<char>,
) -> Result<Turn, TurnError> {
    let b = alt.game_confirmed.board_spec(player_id.board_idx);
    if b.active_force != player_id.force {
        Err(TurnError::WrongTurnOrder)
    } else if alt.game_confirmed.status != BughouseGameStatus::Active {
        Err(TurnError::GameOver)
    } else {
        match crate::algebraic::algebraic_turn_spec(b.grid@, b.active_force, b.last_turn, cs) {
            Err(e) => Err(e),
            Ok(t) => match crate::board::try_turn_result(b, t) {
                Err(e) => Err(e),
                Ok(_) => Ok(t),
            },
        }
    }
}

/// The pending speculation was reconciled: some witness state after the
/// first candidate chains the two re-validations.
pub open spec fn reconciliation_ok(
    lt: Option<Turn>,
    pt: Option<Turn>,
    me: BughousePlayerId,
    c1: BughouseGame,
    now: GameInstant,
    lfin: Option<Turn>,
    pfin: Option<Turn>,
) -> bool {
    exists|g1: BughouseGame| #[trigger] reconciled_pending(lt, pt, me, c1, now, g1, lfin, pfin)
}

/// The player list names `id` under `name`.
pub open spec fn named_player(g: BughouseGame, name: Seq<char>, id: BughousePlayerId) -> bool {
    exists|j: int|
        0 <= j < g.players@.len() && g.players@[j].name@ == name && g.players@[j].id == id
}

/// The client-side speculation layer: the server-confirmed game plus at
/// most one local turn and one pre-turn by the seated player, and an
/// optional ongoing drag.
pub struct AlteredGame {
    pub my_id: BughouseParticipantId,
    pub game_confirmed: BughouseGame,
    pub local_turn: Option<Turn>,
    pub preturn: Option<Turn>,
    pub piece_drag: Option<PieceDrag>,
}

impl AlteredGame {
    pub open spec fn wf(self) -> bool {
        &&& self.game_confirmed.wf()
        &&& (self.local_turn matches Some(t) ==> t.wf())
        &&& (self.preturn matches Some(t) ==> t.wf())
        &&& ((self.local_turn is Some || self.preturn is Some) ==> self.my_id
            is Player)
    }

    pub fn new(my_id: BughouseParticipantId, game_confirmed: BughouseGame) -> (r: AlteredGame)
        requires
            game_confirmed.wf(),
        ensures
            r.wf(),
            r.my_id == my_id,
            r.game_confirmed == game_confirmed,
            r.local_turn is None,
            r.preturn is None,
            r.piece_drag is None,
    {
        AlteredGame { my_id, game_confirmed, local_turn: None, preturn: None, piece_drag: None }
    }

    pub fn my_id(&self) -> (r: BughouseParticipantId)
        ensures
            r == self.my_id,
    {
        self.my_id
    }

    pub fn game_confirmed(&self) -> (r: &BughouseGame)
        ensures
            *r == self.game_confirmed,
    {
        &self.game_confirmed
    }

    pub fn status(&self) -> (r: BughouseGameStatus)
        ensures
            r == self.game_confirmed.status,
    {
        self.game_confirmed.status
    }

    /// Forwards an authoritative status (for example a resignation or a
    /// flag) to the confirmed game.
    pub fn set_status(&mut self, status: BughouseGameStatus, now: GameInstant)
        requires
            old(self).wf(),
        ensures
            final(self).wf(),
            final(self).game_confirmed.status == status,
            final(self).my_id == old(self).my_id,
            final(self).local_turn == old(self).local_turn,
            final(self).preturn == old(self).preturn,
            final(self).piece_drag == old(self).piece_drag,
    {
        self.game_confirmed.set_status(status, now);
    }

    /// Drops all local speculation.
    pub fn reset_local_changes(&mut self)
        requires
            old(self).wf(),
        ensures
            final(self).wf(),
            final(self).my_id == old(self).my_id,
            final(self).game_confirmed == old(self).game_confirmed,
            final(self).local_turn is None,
            final(self).preturn is None,
            final(self).piece_drag is None,
    {
        self.local_turn = None;
        self.preturn = None;
        self.piece_drag = None;
    }

    /// Whether a fresh local turn could currently be attempted: only seated
    /// players may move, and only one pre-turn may be queued.
    pub fn can_make_local_turn(&self) -> (r: bool)
        ensures
            r == (self.my_id is Player && self.preturn is None),
    {
        matches!(self.my_id, BughouseParticipantId::Player(_)) && self.preturn.is_none()
    }

    pub fn cancel_preturn(&mut self)
        requires
            old(self).wf(),
        ensures
            final(self).wf(),
            final(self).my_id == old(self).my_id,
            final(self).game_confirmed == old(self).game_confirmed,
            final(self).local_turn == old(self).local_turn,
            final(self).preturn is None,
    {
        self.preturn = None;
    }

    pub fn piece_drag_state(&self) -> (r: Option<PieceDrag>)
        ensures
            r == self.piece_drag,
    {
        self.piece_drag
    }

    /// The derived local game: pure and side-effect-free; callers render
    /// from it. When no speculative turn is pending it equals the confirmed
    /// game.
    #[verifier::rlimit(100)]
    pub fn local_game(&self) -> (r: BughouseGame)
        requires
            self.wf(),
        ensures
            r.wf_core(),
            local_game_rel(*self, GameInstant { elapsed_ms: 0 }, r),
            self.local_turn is None && self.preturn is None ==> game_equiv(r, self.game_confirmed),
            r.wf() || (self.my_id matches BughouseParticipantId::Player(me) && r.board_spec(
                me.board_idx,
            ).active_force != me.force),
    {
        let now = GameInstant::game_start();
        let mut g = self.game_confirmed.duplicate();
        let ghost g0 = g;
        let me = match self.my_id {
            BughouseParticipantId::Player(p) => p,
            BughouseParticipantId::Observer(_) => {
                return g;
            },
        };
        proof {
            assert(game_equiv(g0, self.game_confirmed));
        }
        if let Some(t) = &self.local_turn {
            let my_turn = match me.board_idx {
                BughouseBoard::A => g.board_a.active_force,
                BughouseBoard::B => g.board_b.active_force,
            } == me.force;
            let mode = if my_turn {
                TurnMode::Normal
            } else {
                TurnMode::Preturn
            };
            proof {
                assert(mode == (if self.game_confirmed.board_spec(me.board_idx).active_force
                    == me.force {
                    TurnMode::Normal
                } else {
                    TurnMode::Preturn
                }));
                assert(apply_turn_result(g0, me.board_idx, *t, mode) == apply_turn_result(
                    self.game_confirmed,
                    me.board_idx,
                    *t,
                    mode,
                ));
            }
            let res = g.apply_turn(me.board_idx, t, mode, now);
            proof {
                match res {
                    Ok(_) => {
                        assert(game_stepped(g0, me.board_idx, *t, mode, now, g));
                        assert(players_eq(g.players@, self.game_confirmed.players@)) by {
                            assert forall|j: int|
                                0 <= j < g.players@.len() implies crate::game::player_eq(
                                #[trigger] g.players@[j],
                                self.game_confirmed.players@[j],
                            ) by {
                                assert(crate::game::player_eq(g.players@[j], g0.players@[j]));
                                assert(crate::game::player_eq(
                                    g0.players@[j],
                                    self.game_confirmed.players@[j],
                                ));
                            }
                        }
                        assert forall|j: int|
                            0 <= j < self.game_confirmed.turn_log@.len() implies record_eq(
                            #[trigger] g.turn_log@[j],
                            self.game_confirmed.turn_log@[j],
                        ) by {
                            assert(record_eq(g.turn_log@[j], g0.turn_log@[j]));
                            assert(record_eq(g0.turn_log@[j], self.game_confirmed.turn_log@[j]));
                        }
                        assert(game_stepped(self.game_confirmed, me.board_idx, *t, mode, now, g));
                    },
                    Err(_) => {
                        assert(game_equiv(g, self.game_confirmed));
                    },
                }
            }
        }
        let ghost mid = g;
        proof {
            assert(speculative_applied(self.game_confirmed, me, self.local_turn, now, mid));
        }
        if let Some(t) = &self.preturn {
            let my_turn = match me.board_idx {
                BughouseBoard::A => g.board_a.active_force,
                BughouseBoard::B => g.board_b.active_force,
            } == me.force;
            let mode = if my_turn {
                TurnMode::Normal
            } else {
                TurnMode::Preturn
            };
            let _ = g.apply_turn(me.board_idx, t, mode, now);
        }
        proof {
            assert(speculative_applied(mid, me, self.preturn, now, g));
        }
        g
    }

    /// Attempts a local turn: a normal turn when it is the player's turn in
    /// the local view, else a queued pre-turn — at most one of which may be
    /// pending.
    pub fn try_local_turn(&mut self, turn_input: TurnInput, now: GameInstant) -> (r: Result<
        Turn,
        TurnError,
    >)
        requires
            old(self).wf(),
        ensures
            final(self).wf(),
            final(self).my_id == old(self).my_id,
            final(self).game_confirmed == old(self).game_confirmed,
            final(self).piece_drag == old(self).piece_drag,
            r is Err ==> final(self).local_turn == old(self).local_turn && final(self).preturn
                == old(self).preturn,
            old(self).my_id is Observer ==> r == Err::<Turn, TurnError>(TurnError::WrongTurnOrder),
            old(self).my_id is Player ==> exists|lg: BughouseGame|
                #[trigger] local_game_rel(*old(self), GameInstant { elapsed_ms: 0 }, lg) && r
                    == local_turn_result(*old(self), lg, turn_input) && (r matches Ok(t)
                    ==> local_pending_updated(*old(self), lg, t, *final(self))),
            r matches Ok(t) ==> t.wf(),
    {
        let me = match self.my_id {
            BughouseParticipantId::Player(p) => p,
            BughouseParticipantId::Observer(_) => {
                return Err(TurnError::WrongTurnOrder);
            },
        };
        let mut g = self.local_game();
        let ghost lg = g;
        let my_turn = match me.board_idx {
            BughouseBoard::A => g.board_a.active_force,
            BughouseBoard::B => g.board_b.active_force,
        } == me.force;
        proof {
            assert(my_turn == (cand_mode(lg, me) == TurnMode::Normal));
        }
        if my_turn && self.local_turn.is_none() {
            let turn = match g.try_turn(me.board_idx, &turn_input, TurnMode::Normal, now) {
                Ok(t) => t,
                Err(e) => {
                    proof {
                        assert(Err::<Turn, TurnError>(e) == local_turn_result(*self, lg, turn_input));
                    }
                    return Err(e);
                },
            };
            self.local_turn = Some(turn);
            Ok(turn)
        } else {
            if self.preturn.is_some() {
                return Err(TurnError::PreturnLimitReached);
            }
            let turn = match g.try_turn(me.board_idx, &turn_input, TurnMode::Preturn, now) {
                Ok(t) => t,
                Err(e) => {
                    proof {
                        assert(Err::<Turn, TurnError>(e) == local_turn_result(*self, lg, turn_input));
                    }
                    return Err(e);
                },
            };
            self.preturn = Some(turn);
            Ok(turn)
        }
    }

    /// Attempts a local turn given in algebraic notation.
    pub fn try_local_turn_algebraic(&mut self, notation: &str, now: GameInstant) -> (r: Result<
        Turn,
        TurnError,
    >)
        requires
            old(self).wf(),
        ensures
            final(self).wf(),
            final(self).my_id == old(self).my_id,
            final(self).game_confirmed == old(self).game_confirmed,
            final(self).piece_drag == old(self).piece_drag,
            r is Err ==> final(self).local_turn == old(self).local_turn && final(self).preturn
                == old(self).preturn,
            old(self).my_id is Observer ==> r == Err::<Turn, TurnError>(TurnError::WrongTurnOrder),
            old(self).my_id is Player ==> exists|lg: BughouseGame|
                #[trigger] local_game_rel(*old(self), GameInstant { elapsed_ms: 0 }, lg) && r
                    == local_algebraic_result(*old(self), lg, notation@) && (r matches Ok(t)
                    ==> local_pending_updated(*old(self), lg, t, *final(self))),
    {
        let input = TurnInput::Algebraic(String::from_str(notation));
        let ghost input_spec = input;
        let r = self.try_local_turn(input, now);
        proof {
            if old(self).my_id is Player {
                let lg = choose|lg: BughouseGame|
                    local_game_rel(*old(self), GameInstant { elapsed_ms: 0 }, lg) && r
                        == local_turn_result(*old(self), lg, input_spec) && (r matches Ok(t)
                        ==> local_pending_updated(*old(self), lg, t, *self));
                assert(local_turn_result(*old(self), lg, input_spec) == local_algebraic_result(
                    *old(self),
                    lg,
                    notation@,
                ));
            }
        }
        r
    }

    /// Applies an authoritative turn from the server. A turn by the seated
    /// player confirms the pending local turn; then all remaining
    /// speculation is re-validated against the new confirmed state and
    /// whatever no longer applies is silently dropped.
    pub fn apply_remote_turn_algebraic(
        &mut self,
        player_id: BughousePlayerId,
        notation: &str,
        now: GameInstant,
    ) -> (r: Result<Turn, TurnError>)
        requires
            old(self).wf(),
        ensures
            final(self).wf(),
            final(self).my_id == old(self).my_id,
            r is Err ==> *final(self) == *old(self),
            r == remote_turn_result(*old(self), player_id, notation@),
            r matches Ok(t) ==> game_stepped(
                old(self).game_confirmed,
                player_id.board_idx,
                t,
                TurnMode::Normal,
                now,
                final(self).game_confirmed,
            ),
            r is Ok ==> final(self).piece_drag == old(self).piece_drag,
            r is Ok ==> (match old(self).my_id {
                BughouseParticipantId::Player(me) => {
                    let kept_local = if player_id == me {
                        None
                    } else {
                        old(self).local_turn
                    };
                    reconciliation_ok(
                        kept_local,
                        old(self).preturn,
                        me,
                        final(self).game_confirmed,
                        now,
                        final(self).local_turn,
                        final(self).preturn,
                    )
                },
                BughouseParticipantId::Observer(_) => final(self).local_turn == old(
                    self,
                ).local_turn && final(self).preturn == old(self).preturn,
            }),
    {
        let board_idx = player_id.board_idx;
        let active = match board_idx {
            BughouseBoard::A => self.game_confirmed.board_a.active_force,
            BughouseBoard::B => self.game_confirmed.board_b.active_force,
        };
        if active != player_id.force {
            return Err(TurnError::WrongTurnOrder);
        }
        let input = TurnInput::Algebraic(String::from_str(notation));
        let turn = match self.game_confirmed.try_turn(board_idx, &input, TurnMode::Normal, now) {
            Ok(t) => t,
            Err(e) => {
                return Err(e);
            },
        };
        let me = match self.my_id {
            BughouseParticipantId::Player(p) => p,
            BughouseParticipantId::Observer(_) => {
                return Ok(turn);
            },
        };
        if player_id == me {
            // The server confirmed the pending local turn.
            self.local_turn = None;
        }
        let ghost lt_call = self.local_turn;
        let ghost pt_call = self.preturn;
        let ghost conf_call = self.game_confirmed;
        self.reconcile_speculation(me, now);
        proof {
            let g1 = choose|g1: BughouseGame|
                reconciled_pending(
                    lt_call,
                    pt_call,
                    me,
                    conf_call,
                    now,
                    g1,
                    self.local_turn,
                    self.preturn,
                );
            assert(reconciled_pending(
                if player_id == me {
                    None
                } else {
                    old(self).local_turn
                },
                old(self).preturn,
                me,
                self.game_confirmed,
                now,
                g1,
                self.local_turn,
                self.preturn,
            ));
            assert(old(self).my_id == BughouseParticipantId::Player(me));
            let kept = if player_id == me {
                None
            } else {
                old(self).local_turn
            };
            assert(reconciliation_ok(
                kept,
                old(self).preturn,
                me,
                self.game_confirmed,
                now,
                self.local_turn,
                self.preturn,
            ));
        }
        Ok(turn)
    }

    /// Re-validates the pending speculation against the (already updated)
    /// confirmed game: a candidate that still applies keeps its slot, in
    /// order; anything else is silently dropped.
    #[verifier::rlimit(100)]
    fn reconcile_speculation(&mut self, me: BughousePlayerId, now: GameInstant)
        requires
            old(self).wf(),
            old(self).my_id == BughouseParticipantId::Player(me),
        ensures
            final(self).wf(),
            final(self).my_id == old(self).my_id,
            final(self).game_confirmed == old(self).game_confirmed,
            final(self).piece_drag == old(self).piece_drag,
            reconciliation_ok(
                old(self).local_turn,
                old(self).preturn,
                me,
                old(self).game_confirmed,
                now,
                final(self).local_turn,
                final(self).preturn,
            ),
    {
        // Re-validate the remaining speculation against the new confirmed
        // state.
        let lt = self.local_turn;
        let pt = self.preturn;
        self.local_turn = None;
        self.preturn = None;
        let ghost c1 = self.game_confirmed;
        let mut g = self.game_confirmed.duplicate();
        let ghost d0 = g;
        if let Some(t) = &lt {
            let my_turn = match me.board_idx {
                BughouseBoard::A => g.board_a.active_force,
                BughouseBoard::B => g.board_b.active_force,
            } == me.force;
            let mode = if my_turn {
                TurnMode::Normal
            } else {
                TurnMode::Preturn
            };
            proof {
                assert(mode == cand_mode(c1, me));
                assert(apply_turn_result(d0, me.board_idx, *t, mode) == apply_turn_result(
                    c1,
                    me.board_idx,
                    *t,
                    mode,
                ));
            }
            let res = g.apply_turn(me.board_idx, t, mode, now);
            proof {
                match res {
                    Ok(_) => {
                        assert(game_stepped(d0, me.board_idx, *t, mode, now, g));
                        assert(players_eq(g.players@, c1.players@)) by {
                            assert forall|j: int|
                                0 <= j < g.players@.len() implies crate::game::player_eq(
                                #[trigger] g.players@[j],
                                c1.players@[j],
                            ) by {
                                assert(crate::game::player_eq(g.players@[j], d0.players@[j]));
                                assert(crate::game::player_eq(d0.players@[j], c1.players@[j]));
                            }
                        }
                        assert forall|j: int|
                            0 <= j < c1.turn_log@.len() implies record_eq(
                            #[trigger] g.turn_log@[j],
                            c1.turn_log@[j],
                        ) by {
                            assert(record_eq(g.turn_log@[j], d0.turn_log@[j]));
                            assert(record_eq(d0.turn_log@[j], c1.turn_log@[j]));
                        }
                        assert(game_stepped(c1, me.board_idx, *t, mode, now, g));
                    },
                    Err(_) => {
                        assert(game_equiv(g, c1));
                    },
                }
            }
            match res {
                Ok(_) => {
                    if my_turn {
                        self.local_turn = Some(*t);
                    } else {
                        self.preturn = Some(*t);
                    }
                },
                Err(_) => {},
            }
        }
        let ghost g1 = g;
        proof {
            assert(speculative_applied(c1, me, lt, now, g1));
        }
        if let Some(t) = &pt {
            let my_turn = match me.board_idx {
                BughouseBoard::A => g.board_a.active_force,
                BughouseBoard::B => g.board_b.active_force,
            } == me.force;
            let mode = if my_turn {
                TurnMode::Normal
            } else {
                TurnMode::Preturn
            };
            proof {
                assert(my_turn == (cand_mode(g1, me) == TurnMode::Normal));
            }
            if my_turn && self.local_turn.is_some() {
                // Both speculative turns cannot be normal turns at once.
            } else if self.preturn.is_none() {
                match g.apply_turn(me.board_idx, t, mode, now) {
                    Ok(_) => {
                        if my_turn && self.local_turn.is_none() {
                            self.local_turn = Some(*t);
                        } else {
                            self.preturn = Some(*t);
                        }
                    },
                    Err(_) => {},
                }
            }
        }
        proof {
            assert(reconciled_pending(
                lt,
                pt,
                me,
                self.game_confirmed,
                now,
                g1,
                self.local_turn,
                self.preturn,
            ));
        }
    }

    /// Whether the two named players sit on the same board with opposite
    /// colours.
    pub fn are_opponents(&self, a: &str, b: &str) -> (r: Option<bool>)
        ensures
            r is Some <==> ((exists|pa: BughousePlayerId|
                #[trigger] named_player(self.game_confirmed, a@, pa)) && (exists|
                pb: BughousePlayerId,
            | #[trigger] named_player(self.game_confirmed, b@, pb))),
            r matches Some(v) ==> exists|pa: BughousePlayerId, pb: BughousePlayerId|
                #[trigger] named_player(self.game_confirmed, a@, pa) && #[trigger] named_player(
                    self.game_confirmed,
                    b@,
                    pb,
                ) && v == (pa.board_idx == pb.board_idx && pa.force != pb.force),
    {
        let ia = self.game_confirmed.find_player(a);
        let ib = self.game_confirmed.find_player(b);
        proof {
            match ia {
                Some(pa) => {
                    assert(named_player(self.game_confirmed, a@, pa));
                },
                None => {
                    assert forall|pa: BughousePlayerId|
                        !named_player(self.game_confirmed, a@, pa) by {
                        if named_player(self.game_confirmed, a@, pa) {
                            let j = choose|j: int|
                                0 <= j < self.game_confirmed.players@.len()
                                    && self.game_confirmed.players@[j].name@ == a@
                                    && self.game_confirmed.players@[j].id == pa;
                            assert(self.game_confirmed.players@[j].name@ != a@);
                        }
                    }
                },
            }
            match ib {
                Some(pb) => {
                    assert(named_player(self.game_confirmed, b@, pb));
                },
                None => {
                    assert forall|pb: BughousePlayerId|
                        !named_player(self.game_confirmed, b@, pb) by {
                        if named_player(self.game_confirmed, b@, pb) {
                            let j = choose|j: int|
                                0 <= j < self.game_confirmed.players@.len()
                                    && self.game_confirmed.players@[j].name@ == b@
                                    && self.game_confirmed.players@[j].id == pb;
                            assert(self.game_confirmed.players@[j].name@ != b@);
                        }
                    }
                },
            }
        }
        match (ia, ib) {
            (Some(pa), Some(pb)) => Some(
                pa.board_idx == pb.board_idx && pa.force != pb.force,
            ),
            _ => None,
        }
    }

    /// Starts dragging a piece of the seated player in the local view.
    pub fn start_drag_piece(&mut self, start: PieceDragStart) -> (r: Result<(), PieceDragError>)
        requires
            old(self).wf(),
        ensures
            final(self).wf(),
            final(self).my_id == old(self).my_id,
            final(self).game_confirmed == old(self).game_confirmed,
            final(self).local_turn == old(self).local_turn,
            final(self).preturn == old(self).preturn,
            old(self).my_id is Observer ==> r == Err::<(), PieceDragError>(
                PieceDragError::DragForbidden,
            ),
            old(self).my_id is Player ==> exists|lg: BughouseGame|
                #[trigger] local_game_rel(*old(self), GameInstant { elapsed_ms: 0 }, lg) && ({
                    let outcome = start_drag_outcome(*old(self), lg, start);
                    &&& r == (match outcome {
                        Ok(_) => Ok::<(), PieceDragError>(()),
                        Err(e) => Err::<(), PieceDragError>(e),
                    })
                    &&& final(self).piece_drag == (match outcome {
                        Ok(d) => Some(d),
                        Err(_) => old(self).piece_drag,
                    })
                }),
    {
        let me = match self.my_id {
            BughouseParticipantId::Player(p) => p,
            BughouseParticipantId::Observer(_) => {
                return Err(PieceDragError::DragForbidden);
            },
        };
        let g = self.local_game();
        let ghost lg = g;
        if self.piece_drag.is_some() {
            return Err(PieceDragError::DragAlreadyStarted);
        }
        match start {
            PieceDragStart::Board(c) => {
                if !(c.row < 8 && c.col < 8) {
                    return Err(PieceDragError::DragIllegalDestination);
                }
                let board = match me.board_idx {
                    BughouseBoard::A => &g.board_a,
                    BughouseBoard::B => &g.board_b,
                };
                match board.grid.get(c) {
                    Some(p) => {
                        if p.force != me.force {
                            return Err(PieceDragError::DragIllegalDestination);
                        }
                        self.piece_drag = Some(PieceDrag { source: start, piece_kind: p.kind });
                        Ok(())
                    },
                    None => Err(PieceDragError::DragIllegalDestination),
                }
            },
            PieceDragStart::Reserve(kind) => {
                let board = match me.board_idx {
                    BughouseBoard::A => &g.board_a,
                    BughouseBoard::B => &g.board_b,
                };
                let reserve = match me.force {
                    Force::White => &board.reserve_white,
                    Force::Black => &board.reserve_black,
                };
                if reserve.count(kind) < 1 {
                    return Err(PieceDragError::DragIllegalDestination);
                }
                self.piece_drag = Some(PieceDrag { source: start, piece_kind: kind });
                Ok(())
            },
        }
    }

    /// Updates the hover target of an ongoing drag. The engine keeps no
    /// hover state; this only checks that a drag is in progress.
    pub fn drag_over_piece(&mut self, _dest: Option<Coord>) -> (r: Result<(), PieceDragError>)
        requires
            old(self).wf(),
        ensures
            final(self).wf(),
            *final(self) == *old(self),
            r is Ok <==> old(self).piece_drag is Some,
    {
        if self.piece_drag.is_some() {
            Ok(())
        } else {
            Err(PieceDragError::NoDragInProgress)
        }
    }

    pub fn abort_drag_piece(&mut self)
        requires
            old(self).wf(),
        ensures
            final(self).wf(),
            final(self).piece_drag is None,
            final(self).my_id == old(self).my_id,
            final(self).game_confirmed == old(self).game_confirmed,
            final(self).local_turn == old(self).local_turn,
            final(self).preturn == old(self).preturn,
    {
        self.piece_drag = None;
    }

    /// Finishes a drag, yielding the turn input to attempt. Fails with
    /// `DragNoLongerPossible` when the dragged piece is no longer where the
    /// drag began (for example because a reverted pre-turn removed it).
    pub fn drag_piece_drop(&mut self, dest: Coord, promote_to: PieceKind) -> (r: Result<
        TurnInput,
        PieceDragError,
    >)
        requires
            old(self).wf(),
        ensures
            final(self).wf(),
            final(self).my_id == old(self).my_id,
            final(self).game_confirmed == old(self).game_confirmed,
            final(self).local_turn == old(self).local_turn,
            final(self).preturn == old(self).preturn,
            old(self).my_id is Observer ==> r == Err::<TurnInput, PieceDragError>(
                PieceDragError::DragForbidden,
            ) && *final(self) == *old(self),
            old(self).my_id is Player ==> final(self).piece_drag is None && exists|
                lg: BughouseGame,
            |
                #[trigger] local_game_rel(*old(self), GameInstant { elapsed_ms: 0 }, lg) && r
                    == drag_drop_result(*old(self), lg, dest, promote_to),
    {
        let me = match self.my_id {
            BughouseParticipantId::Player(p) => p,
            BughouseParticipantId::Observer(_) => {
                return Err(PieceDragError::DragForbidden);
            },
        };
        let g = self.local_game();
        let ghost lg = g;
        let drag = match self.piece_drag {
            Some(d) => d,
            None => {
                return Err(PieceDragError::NoDragInProgress);
            },
        };
        self.piece_drag = None;
        if !(dest.row < 8 && dest.col < 8) {
            return Err(PieceDragError::DragIllegalDestination);
        }
        match drag.source {
            PieceDragStart::Board(src) => {
                if !(src.row < 8 && src.col < 8) {
                    return Err(PieceDragError::DragNoLongerPossible);
                }
                if src == dest {
                    return Err(PieceDragError::DragIllegalDestination);
                }
                let board = match me.board_idx {
                    BughouseBoard::A => &g.board_a,
                    BughouseBoard::B => &g.board_b,
                };
                let piece = match board.grid.get(src) {
                    Some(p) => p,
                    None => {
                        return Err(PieceDragError::DragNoLongerPossible);
                    },
                };
                if piece.force != me.force || piece.kind != drag.piece_kind {
                    return Err(PieceDragError::DragNoLongerPossible);
                }
                let last_row = subjective_row_to_row(8, me.force);
                let promote = if piece.kind == PieceKind::Pawn && dest.row == last_row {
                    Some(promote_to)
                } else {
                    None
                };
                Ok(
                    TurnInput::DragDrop(
                        Turn::Move(TurnMove { from: src, to: dest, promote_to: promote }),
                    ),
                )
            },
            PieceDragStart::Reserve(kind) => {
                Ok(TurnInput::DragDrop(Turn::Drop(TurnDrop { piece_kind: kind, to: dest })))
            },
        }
    }
}

} // verus!
