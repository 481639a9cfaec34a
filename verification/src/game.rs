use vstd::prelude::*;

use crate::algebraic::{algebraic_turn_spec, turn_from_algebraic, turn_notation_chars, turn_to_algebraic};
use crate::board::{
    next_reserve, next_rights, next_status, try_turn_result, turn_outcome, preturn_result, Board,
    Capture, ChessGameStatus, DrawReason, Reserve, VictoryReason,
};
use crate::clock::GameInstant;
use crate::coord::Coord;
use crate::force::Force;
use crate::grid::at;
use crate::piece::{CastleDirection, PieceKind};
use crate::rules::{BughouseRules, ChessRules, StartingPosition};
use crate::starting::{fischer_random_layout, generate_starting_grid, EffectiveStartingPosition};
use crate::turn::{Turn, TurnError, TurnInput, TurnMode};

verus! {

/// The two teams of a bughouse match. White on board A and Black on board B
/// form one team; the other two seats form the other.
#[derive(Clone, Copy, PartialEq, Eq, Structural, Debug)]
pub enum Team {
    Red,
    Blue,
}

impl Team {
    pub open spec fn spec_other(self) -> Team {
        match self {
            Team::Red => Team::Blue,
            Team::Blue => Team::Red,
        }
    }

    #[verifier::when_used_as_spec(spec_other)]
    pub fn other(self) -> (r: Team)
        ensures
            r == self.spec_other(),
    {
        match self {
            Team::Red => Team::Blue,
            Team::Blue => Team::Red,
        }
    }
}

/// One of the two boards of a bughouse game.
#[derive(Clone, Copy, PartialEq, Eq, Structural, Debug)]
pub enum BughouseBoard {
    A,
    B,
}

impl BughouseBoard {
    pub open spec fn spec_other(self) -> BughouseBoard {
        match self {
            BughouseBoard::A => BughouseBoard::B,
            BughouseBoard::B => BughouseBoard::A,
        }
    }

    #[verifier::when_used_as_spec(spec_other)]
    pub fn other(self) -> (r: BughouseBoard)
        ensures
            r == self.spec_other(),
    {
        match self {
            BughouseBoard::A => BughouseBoard::B,
            BughouseBoard::B => BughouseBoard::A,
        }
    }
}

/// The force a team plays on a board: Red is White on A and Black on B.
pub open spec fn spec_get_bughouse_force(team: Team, board_idx: BughouseBoard) -> Force {
    match (team, board_idx) {
        (Team::Red, BughouseBoard::A) => Force::White,
        (Team::Red, BughouseBoard::B) => Force::Black,
        (Team::Blue, BughouseBoard::A) => Force::Black,
        (Team::Blue, BughouseBoard::B) => Force::White,
    }
}

#[verifier::when_used_as_spec(spec_get_bughouse_force)]
pub fn get_bughouse_force(team: Team, board_idx: BughouseBoard) -> (r: Force)
    ensures
        r == spec_get_bughouse_force(team, board_idx),
{
    match (team, board_idx) {
        (Team::Red, BughouseBoard::A) => Force::White,
        (Team::Red, BughouseBoard::B) => Force::Black,
        (Team::Blue, BughouseBoard::A) => Force::Black,
        (Team::Blue, BughouseBoard::B) => Force::White,
    }
}

/// One of the four seats of a bughouse game.
#[derive(Clone, Copy, PartialEq, Eq, Structural, Debug)]
pub struct BughousePlayerId {
    pub board_idx: BughouseBoard,
    pub force: Force,
}

impl BughousePlayerId {
    pub open spec fn spec_team(self) -> Team {
        if spec_get_bughouse_force(Team::Red, self.board_idx) == self.force {
            Team::Red
        } else {
            Team::Blue
        }
    }

    #[verifier::when_used_as_spec(spec_team)]
    pub fn team(self) -> (r: Team)
        ensures
            r == self.spec_team(),
    {
        if get_bughouse_force(Team::Red, self.board_idx) == self.force {
            Team::Red
        } else {
            Team::Blue
        }
    }
}

/// Someone looking at a game: a seated player, or an observer following one
/// of the boards.
#[derive(Clone, Copy, PartialEq, Eq, Structural, Debug)]
pub enum BughouseParticipantId {
    Player(BughousePlayerId),
    Observer(BughouseBoard),
}

impl BughouseParticipantId {
    /// The board this participant primarily looks at.
    pub open spec fn spec_visual_board_idx(self) -> BughouseBoard {
        match self {
            BughouseParticipantId::Player(p) => p.board_idx,
            BughouseParticipantId::Observer(b) => b,
        }
    }

    #[verifier::when_used_as_spec(spec_visual_board_idx)]
    pub fn visual_board_idx(self) -> (r: BughouseBoard)
        ensures
            r == self.spec_visual_board_idx(),
    {
        match self {
            BughouseParticipantId::Player(p) => p.board_idx,
            BughouseParticipantId::Observer(b) => b,
        }
    }
}

#[derive(Clone, Debug)]
pub struct PlayerInGame {
    pub name: String,
    pub id: BughousePlayerId,
}

/// Status of the bughouse game as a whole.
#[derive(Clone, Copy, PartialEq, Eq, Structural, Debug)]
pub enum BughouseGameStatus {
    Active,
    Victory(Team, VictoryReason),
    Draw(DrawReason),
}

/// A confirmed turn together with its canonical notation.
#[derive(Clone, Debug)]
pub struct TurnExpanded {
    pub turn: Turn,
    pub algebraic: String,
}

/// An entry of the turn log: who made which turn when.
#[derive(Clone, Debug)]
pub struct TurnRecordExpanded {
    pub player_id: BughousePlayerId,
    pub turn_expanded: TurnExpanded,
    pub time: GameInstant,
}

/// Equality of players up to string representation.
pub open spec fn player_eq(a: PlayerInGame, b: PlayerInGame) -> bool {
    a.id == b.id && a.name@ == b.name@
}

pub open spec fn players_eq(a: Seq<PlayerInGame>, b: Seq<PlayerInGame>) -> bool {
    a.len() == b.len() && forall|j: int| 0 <= j < a.len() ==> player_eq(#[trigger] a[j], b[j])
}

/// Equality of log records up to string representation.
pub open spec fn record_eq(a: TurnRecordExpanded, b: TurnRecordExpanded) -> bool {
    a.player_id == b.player_id && a.turn_expanded.turn == b.turn_expanded.turn
        && a.turn_expanded.algebraic@ == b.turn_expanded.algebraic@ && a.time == b.time
}

pub open spec fn log_eq(a: Seq<TurnRecordExpanded>, b: Seq<TurnRecordExpanded>) -> bool {
    a.len() == b.len() && forall|j: int| 0 <= j < a.len() ==> record_eq(#[trigger] a[j], b[j])
}

/// The players used by examples and self-tests: four fixed seats.
pub fn sample_bughouse_players() -> (r: Vec<PlayerInGame>)
    ensures
        r@.len() == 4,
{
    let mut v: Vec<PlayerInGame> = Vec::new();
    v.push(
        PlayerInGame {
            name: String::from_str("Alice"),
            id: BughousePlayerId { board_idx: BughouseBoard::A, force: Force::White },
        },
    );
    v.push(
        PlayerInGame {
            name: String::from_str("Bob"),
            id: BughousePlayerId { board_idx: BughouseBoard::A, force: Force::Black },
        },
    );
    v.push(
        PlayerInGame {
            name: String::from_str("Charlie"),
            id: BughousePlayerId { board_idx: BughouseBoard::B, force: Force::White },
        },
    );
    v.push(
        PlayerInGame {
            name: String::from_str("Dave"),
            id: BughousePlayerId { board_idx: BughouseBoard::B, force: Force::Black },
        },
    );
    v
}

/// The players used by examples and self-tests of the single-board game.
pub fn sample_chess_players() -> (r: Vec<String>)
    ensures
        r@.len() == 2,
{
    let mut v: Vec<String> = Vec::new();
    v.push(String::from_str("Alice"));
    v.push(String::from_str("Bob"));
    v
}

/// Reduces a turn input to a canonical turn against a board, for a turn by
/// `force`: algebraic notation is parsed and resolved, and dragging the king
/// onto an own castling rook becomes the corresponding castle.
pub open spec fn resolve_input_spec(b: Board, force: Force, input: TurnInput) -> Result<
    Turn,
    TurnError,
> {
    match input {
        TurnInput::Algebraic(s) => algebraic_turn_spec(b.grid@, force, b.last_turn, s@),
        TurnInput::DragDrop(t) => {
            if !t.wf() {
                Err(TurnError::Unreachable)
            } else {
                match t {
                    Turn::Move(mv) => {
                        if at(b.grid@, mv.from) matches Some(p) && p.force == force && p.kind
                            == PieceKind::King && (at(b.grid@, mv.to) matches Some(q) && q.force
                            == force && q.rook_castling is Some) {
                            Ok(Turn::Castle(at(b.grid@, mv.to)->0.rook_castling->0))
                        } else {
                            Ok(t)
                        }
                    },
                    _ => Ok(t),
                }
            }
        },
    }
}

/// Reduces a turn input to a canonical turn. Decides `resolve_input_spec`.
fn resolve_turn_input(board: &Board, force: Force, input: &TurnInput) -> (r: Result<
    Turn,
    TurnError,
>)
    requires
        board.wf_core(),
    ensures
        r == resolve_input_spec(*board, force, *input),
        r matches Ok(t) ==> t.wf(),
{
    match input {
        TurnInput::Algebraic(s) => turn_from_algebraic(&board.grid, force, &board.last_turn, s.as_str()),
        TurnInput::DragDrop(t) => {
            let ok = match t {
                Turn::Move(mv) => mv.from.row < 8 && mv.from.col < 8 && mv.to.row < 8 && mv.to.col
                    < 8,
                Turn::Drop(d) => d.to.row < 8 && d.to.col < 8,
                Turn::Castle(_) => true,
            };
            if !ok {
                return Err(TurnError::Unreachable);
            }
            match t {
                Turn::Move(mv) => {
                    if let Some(p) = board.grid.get(mv.from) {
                        if p.force == force && p.kind == PieceKind::King {
                            if let Some(q) = board.grid.get(mv.to) {
                                if q.force == force {
                                    if let Some(dir) = q.rook_castling {
                                        return Ok(Turn::Castle(dir));
                                    }
                                }
                            }
                        }
                    }
                    Ok(Turn::Move(*mv))
                },
                Turn::Drop(d) => Ok(Turn::Drop(*d)),
                Turn::Castle(dir) => Ok(Turn::Castle(*dir)),
            }
        },
    }
}

} // verus!

// The two-board bughouse game.
verus! {

/// Two coupled boards, the seated players, the aggregated status and the
/// log of confirmed turns.
pub struct BughouseGame {
    pub board_a: Board,
    pub board_b: Board,
    pub players: Vec<PlayerInGame>,
    pub status: BughouseGameStatus,
    pub turn_log: Vec<TurnRecordExpanded>,
    pub starting_position: EffectiveStartingPosition,
}

/// A board as a game starts: active status, White to move, both castle
/// rights, empty reserves, no last turn, clock loaded and not ticking.
pub open spec fn fresh_board(b: Board, chess_rules: ChessRules) -> bool {
    &&& b.chess_rules == chess_rules
    &&& b.status == ChessGameStatus::Active
    &&& b.active_force == Force::White
    &&& b.castle_rights_white == (crate::board::CastleRights { a_side: true, h_side: true })
    &&& b.castle_rights_black == (crate::board::CastleRights { a_side: true, h_side: true })
    &&& (forall|f: Force, kind: crate::piece::PieceKind| b.reserve(f).get(kind) == 0)
    &&& b.last_turn is None
    &&& b.clock.spec_turn_state() is None
    &&& (forall|f: Force| b.clock.remaining(f) == chess_rules.time_control.starting_time_ms)
}

/// The grid holds exactly the starting position of a layout.
pub open spec fn grid_is_start(g: crate::grid::GridView, ks: Seq<crate::piece::PieceKind>) -> bool {
    forall|q: Coord| q.wf() ==> #[trigger] at(g, q) == crate::starting::start_piece(ks, q)
}

impl BughouseGame {
    pub open spec fn board_spec(self, idx: BughouseBoard) -> Board {
        match idx {
            BughouseBoard::A => self.board_a,
            BughouseBoard::B => self.board_b,
        }
    }

    /// Both boards are well-formed at the core and share the same rules,
    /// which include bughouse rules.
    pub open spec fn wf_core(self) -> bool {
        &&& self.board_a.wf_core()
        &&& self.board_b.wf_core()
        &&& self.board_a.chess_rules == self.board_b.chess_rules
        &&& self.board_a.bughouse_rules == self.board_b.bughouse_rules
        &&& self.board_a.bughouse_rules is Some
    }

    /// Additionally, no force was left in check out of turn (suspended by a
    /// speculative pre-turn only).
    pub open spec fn wf(self) -> bool {
        &&& self.wf_core()
        &&& self.board_a.wf()
        &&& self.board_b.wf()
    }

    pub fn new_with_starting_position(
        chess_rules: ChessRules,
        bughouse_rules: BughouseRules,
        position: EffectiveStartingPosition,
        players: &Vec<PlayerInGame>,
    ) -> (r: BughouseGame)
        requires
            position.wf(),
            bughouse_rules.wf(),
        ensures
            r.wf(),
            r.status == BughouseGameStatus::Active,
            r.turn_log@.len() == 0,
            players_eq(r.players@, players@),
            r.starting_position == position,
            r.board_a.grid@ == r.board_b.grid@,
            grid_is_start(r.board_a.grid@, crate::starting::position_kinds(position)),
            fresh_board(r.board_a, chess_rules),
            fresh_board(r.board_b, chess_rules),
            r.board_a.bughouse_rules == Some(bughouse_rules),
            r.board_b.bughouse_rules == Some(bughouse_rules),
    {
        let grid_a = generate_starting_grid(&position);
        let grid_b = generate_starting_grid(&position);
        proof {
            assert forall|q: Coord| q.wf() implies at(grid_a@, q) == at(grid_b@, q) by {}
            assert forall|i: int| 0 <= i < 64 implies grid_a@[i] == grid_b@[i] by {
                let q = crate::coord::coord_of_index(i);
                crate::coord::lemma_coord_index_bijective(q);
                assert(at(grid_a@, q) == at(grid_b@, q));
            }
            assert(grid_a@ =~= grid_b@);
        }
        let board_a = Board::new(chess_rules, Some(bughouse_rules), grid_a);
        let board_b = Board::new(chess_rules, Some(bughouse_rules), grid_b);
        let ps = clone_players(players);
        BughouseGame {
            board_a,
            board_b,
            players: ps,
            status: BughouseGameStatus::Active,
            turn_log: Vec::new(),
            starting_position: position,
        }
    }

    pub fn new(
        chess_rules: ChessRules,
        bughouse_rules: BughouseRules,
        players: &Vec<PlayerInGame>,
    ) -> (r: BughouseGame)
        requires
            bughouse_rules.wf(),
        ensures
            r.wf(),
            r.status == BughouseGameStatus::Active,
            r.turn_log@.len() == 0,
            players_eq(r.players@, players@),
            r.board_a.grid@ == r.board_b.grid@,
            fresh_board(r.board_a, chess_rules),
            fresh_board(r.board_b, chess_rules),
            r.board_a.bughouse_rules == Some(bughouse_rules),
            r.board_b.bughouse_rules == Some(bughouse_rules),
            exists|ks: Seq<crate::piece::PieceKind>|
                #[trigger] grid_is_start(r.board_a.grid@, ks) && ks == crate::starting::position_kinds(
                    r.starting_position,
                ) && (match chess_rules.starting_position {
                    StartingPosition::Classic => ks == crate::starting::classic_kinds(),
                    StartingPosition::FischerRandom => crate::starting::layout_full(ks),
                }),
    {
        let position = match chess_rules.starting_position {
            StartingPosition::Classic => EffectiveStartingPosition::Classic,
            StartingPosition::FischerRandom => EffectiveStartingPosition::FischerRandom(
                fischer_random_layout(),
            ),
        };
        let r = Self::new_with_starting_position(chess_rules, bughouse_rules, position, players);
        proof {
            assert(grid_is_start(r.board_a.grid@, crate::starting::position_kinds(position)));
        }
        r
    }

    pub fn board(&self, idx: BughouseBoard) -> (r: &Board)
        ensures
            *r == self.board_spec(idx),
    {
        match idx {
            BughouseBoard::A => &self.board_a,
            BughouseBoard::B => &self.board_b,
        }
    }

    pub fn status(&self) -> (r: BughouseGameStatus)
        ensures
            r == self.status,
    {
        self.status
    }

    pub fn chess_rules(&self) -> (r: ChessRules)
        ensures
            r == self.board_a.chess_rules,
    {
        self.board_a.chess_rules
    }

    pub fn starting_position(&self) -> (r: &EffectiveStartingPosition)
        ensures
            *r == self.starting_position,
    {
        &self.starting_position
    }

    pub fn turn_log(&self) -> (r: &Vec<TurnRecordExpanded>)
        ensures
            *r == self.turn_log,
    {
        &self.turn_log
    }

    pub fn last_turn_record(&self) -> (r: Option<&TurnRecordExpanded>)
        ensures
            match r {
                Some(rec) => self.turn_log@.len() > 0 && *rec == self.turn_log@.last(),
                None => self.turn_log@.len() == 0,
            },
    {
        if self.turn_log.len() > 0 {
            Some(&self.turn_log[self.turn_log.len() - 1])
        } else {
            None
        }
    }

    /// Ends the game with the given status (a resignation, a flag, or a
    /// server-announced result), stopping both clocks.
    pub fn set_status(&mut self, status: BughouseGameStatus, now: GameInstant)
        requires
            old(self).wf_core(),
        ensures
            final(self).wf_core(),
            old(self).wf() ==> final(self).wf(),
            final(self).status == status,
            same_board_but_clock(final(self).board_a, old(self).board_a),
            same_board_but_clock(final(self).board_b, old(self).board_b),
            status == BughouseGameStatus::Active ==> final(self).board_a.clock == old(
                self,
            ).board_a.clock && final(self).board_b.clock == old(self).board_b.clock,
            status != BughouseGameStatus::Active ==> clock_stopped(
                final(self).board_a.clock,
                old(self).board_a.clock,
                now,
            ) && clock_stopped(final(self).board_b.clock, old(self).board_b.clock, now),
            final(self).turn_log == old(self).turn_log,
            final(self).players == old(self).players,
            final(self).starting_position == old(self).starting_position,
    {
        self.status = status;
        if !matches!(status, BughouseGameStatus::Active) {
            self.board_a.clock.stop(now);
            self.board_b.clock.stop(now);
        }
    }

    /// Looks a player up by name.
    pub fn find_player(&self, name: &str) -> (r: Option<BughousePlayerId>)
        ensures
            match r {
                Some(id) => exists|j: int|
                    0 <= j < self.players@.len() && self.players@[j].name@ == name@
                        && self.players@[j].id == id,
                None => forall|j: int|
                    0 <= j < self.players@.len() ==> self.players@[j].name@ != name@,
            },
    {
        let mut i: usize = 0;
        while i < self.players.len()
            invariant
                i <= self.players@.len(),
                forall|j: int| 0 <= j < i ==> self.players@[j].name@ != name@,
            decreases self.players@.len() - i,
        {
            if crate::algebraic::str_eq(self.players[i].name.as_str(), name) {
                return Some(self.players[i].id);
            }
            i = i + 1;
        }
        None
    }

    /// The name of the player in the given seat.
    pub fn player_name(&self, id: BughousePlayerId) -> (r: Option<&String>)
        ensures
            match r {
                Some(name) => exists|j: int|
                    0 <= j < self.players@.len() && self.players@[j].id == id && self.players@[j].name
                        == *name,
                None => forall|j: int| 0 <= j < self.players@.len() ==> self.players@[j].id != id,
            },
    {
        let mut i: usize = 0;
        while i < self.players.len()
            invariant
                i <= self.players@.len(),
                forall|j: int| 0 <= j < i ==> self.players@[j].id != id,
            decreases self.players@.len() - i,
        {
            if self.players[i].id == id {
                return Some(&self.players[i].name);
            }
            i = i + 1;
        }
        None
    }

    /// An independent copy of the game.
    pub fn duplicate(&self) -> (r: BughouseGame)
        requires
            self.board_a.grid.wf(),
            self.board_b.grid.wf(),
        ensures
            r.board_a.grid@ == self.board_a.grid@,
            r.board_b.grid@ == self.board_b.grid@,
            same_board_but_grid(r.board_a, self.board_a),
            same_board_but_grid(r.board_b, self.board_b),
            players_eq(r.players@, self.players@),
            r.status == self.status,
            log_eq(r.turn_log@, self.turn_log@),
            r.starting_position == self.starting_position,
            self.wf_core() ==> r.wf_core(),
            self.wf() ==> r.wf(),
    {
        let ps = clone_players(&self.players);
        let mut log: Vec<TurnRecordExpanded> = Vec::new();
        let mut i: usize = 0;
        while i < self.turn_log.len()
            invariant
                i <= self.turn_log@.len(),
                log@.len() == i,
                forall|j: int| 0 <= j < i ==> record_eq(#[trigger] log@[j], self.turn_log@[j]),
            decreases self.turn_log@.len() - i,
        {
            let rec = &self.turn_log[i];
            log.push(
                TurnRecordExpanded {
                    player_id: rec.player_id,
                    turn_expanded: TurnExpanded {
                        turn: rec.turn_expanded.turn,
                        algebraic: rec.turn_expanded.algebraic.clone(),
                    },
                    time: rec.time,
                },
            );
            i = i + 1;
        }
        BughouseGame {
            board_a: self.board_a.duplicate(),
            board_b: self.board_b.duplicate(),
            players: ps,
            status: self.status,
            turn_log: log,
            starting_position: self.starting_position,
        }
    }
}

/// An element-wise copy of a player list.
fn clone_players(players: &Vec<PlayerInGame>) -> (r: Vec<PlayerInGame>)
    ensures
        players_eq(r@, players@),
{
    let mut ps: Vec<PlayerInGame> = Vec::new();
    let mut i: usize = 0;
    while i < players.len()
        invariant
            i <= players@.len(),
            ps@.len() == i,
            forall|j: int| 0 <= j < i ==> player_eq(#[trigger] ps@[j], players@[j]),
        decreases players@.len() - i,
    {
        let p = &players[i];
        ps.push(PlayerInGame { name: p.name.clone(), id: p.id });
        i = i + 1;
    }
    ps
}

/// The two boards agree on everything but their grids (and reserves).
pub open spec fn same_board_but_grid(b1: Board, b2: Board) -> bool {
    &&& b1.chess_rules == b2.chess_rules
    &&& b1.bughouse_rules == b2.bughouse_rules
    &&& b1.status == b2.status
    &&& b1.castle_rights_white == b2.castle_rights_white
    &&& b1.castle_rights_black == b2.castle_rights_black
    &&& b1.reserve_white == b2.reserve_white
    &&& b1.reserve_black == b2.reserve_black
    &&& b1.last_turn == b2.last_turn
    &&& b1.active_force == b2.active_force
    &&& b1.clock == b2.clock
}

} // verus!

// Turn application with capture routing.
verus! {

/// What applying one already-resolved turn returns.
pub open spec fn apply_turn_result(
    game: BughouseGame,
    board_idx: BughouseBoard,
    t: Turn,
    mode: TurnMode,
) -> Result<Option<Capture>, TurnError> {
    if mode == TurnMode::Normal && game.status != BughouseGameStatus::Active {
        Err(TurnError::GameOver)
    } else {
        let b = game.board_spec(board_idx);
        match mode {
            TurnMode::Normal => try_turn_result(b, t),
            TurnMode::Preturn => preturn_result(b, t),
        }
    }
}

/// What a bughouse `try_turn` call returns, for every game, board, input
/// and mode.
pub open spec fn game_turn_result(
    game: BughouseGame,
    board_idx: BughouseBoard,
    input: TurnInput,
    mode: TurnMode,
) -> Result<Turn, TurnError> {
    if mode == TurnMode::Normal && game.status != BughouseGameStatus::Active {
        Err(TurnError::GameOver)
    } else {
        let b = game.board_spec(board_idx);
        let force = match mode {
            TurnMode::Normal => b.active_force,
            TurnMode::Preturn => b.active_force.opponent(),
        };
        match resolve_input_spec(b, force, input) {
            Err(e) => Err(e),
            Ok(t) => match apply_turn_result(game, board_idx, t, mode) {
                Err(e) => Err(e),
                Ok(_) => Ok(t),
            },
        }
    }
}

/// The capture a successful turn makes, if any.
pub open spec fn game_turn_capture(
    game: BughouseGame,
    board_idx: BughouseBoard,
    input: TurnInput,
    mode: TurnMode,
) -> Option<Capture> {
    let b = game.board_spec(board_idx);
    let force = match mode {
        TurnMode::Normal => b.active_force,
        TurnMode::Preturn => b.active_force.opponent(),
    };
    match resolve_input_spec(b, force, input) {
        Ok(t) => match (match mode {
            TurnMode::Normal => try_turn_result(b, t),
            TurnMode::Preturn => preturn_result(b, t),
        }) {
            Ok(cap) => cap,
            Err(_) => None,
        },
        Err(_) => None,
    }
}

/// A reserve bumped by one (saturating) for one kind, as `receive_capture`
/// does it.
pub open spec fn reserve_bumped(r: Reserve, kind: PieceKind) -> Reserve {
    r.spec_set(
        kind,
        if r.get(kind) < 255 {
            (r.get(kind) + 1) as u8
        } else {
            255u8
        },
    )
}

/// The aggregated game status after a turn on one board: a checkmate there
/// is a victory for the mover's team.
pub open spec fn aggregated_status(
    old_status: BughouseGameStatus,
    board_status: ChessGameStatus,
    board_idx: BughouseBoard,
) -> BughouseGameStatus {
    match board_status {
        ChessGameStatus::Victory(f, VictoryReason::Checkmate) => BughouseGameStatus::Victory(
            BughousePlayerId { board_idx, force: f }.spec_team(),
            VictoryReason::Checkmate,
        ),
        _ => old_status,
    }
}

/// How a successful turn steps the whole game: the played board steps, the
/// capture (if any) enters the matching reserve on the partner board — the
/// captured piece's colour there belongs to the capturer's team mate — a
/// checkmate ends the whole game, and a confirmed (non-pre) turn is logged.
pub open spec fn game_stepped(
    game: BughouseGame,
    board_idx: BughouseBoard,
    t: Turn,
    mode: TurnMode,
    now: GameInstant,
    g2: BughouseGame,
) -> bool {
    let b = game.board_spec(board_idx);
    let other = board_idx.other();
    let force = match mode {
        TurnMode::Normal => b.active_force,
        TurnMode::Preturn => b.active_force.opponent(),
    };
    let cap = match apply_turn_result(game, board_idx, t, mode) {
        Ok(c) => c,
        Err(_) => None,
    };
    &&& players_eq(g2.players@, game.players@)
    &&& g2.starting_position == game.starting_position
    &&& g2.board_spec(board_idx).grid@ == crate::board::turn_outcome_f(b, force, t)->Ok_0.0
    &&& g2.board_spec(board_idx).last_turn == Some(t)
    &&& (forall|f: Force|
        g2.board_spec(board_idx).rights(f) == crate::board::next_rights_f(b, force, t, f))
    &&& (forall|f: Force|
        g2.board_spec(board_idx).reserve(f) == crate::board::next_reserve_f(b, force, t, f))
    &&& g2.board_spec(board_idx).active_force == (match mode {
        TurnMode::Normal => b.active_force.opponent(),
        TurnMode::Preturn => b.active_force,
    })
    &&& (mode == TurnMode::Normal ==> g2.board_spec(board_idx).status == next_status(
        b,
        t,
        crate::board::turn_outcome(b, t)->Ok_0.0,
    ))
    &&& (mode == TurnMode::Preturn ==> g2.board_spec(board_idx).status == b.status)
    &&& g2.board_spec(board_idx).chess_rules == b.chess_rules
    &&& g2.board_spec(board_idx).bughouse_rules == b.bughouse_rules
    &&& same_board_but_grid_reserves(g2.board_spec(other), game.board_spec(other))
    &&& g2.board_spec(other).grid@ == game.board_spec(other).grid@
    &&& (forall|f: Force|
        g2.board_spec(other).reserve(f) == (match cap {
            Some(c) => if f == c.force {
                reserve_bumped(game.board_spec(other).reserve(f), c.spec_effective_kind())
            } else {
                game.board_spec(other).reserve(f)
            },
            None => game.board_spec(other).reserve(f),
        }))
    &&& (mode == TurnMode::Normal ==> g2.status == aggregated_status(
        game.status,
        g2.board_spec(board_idx).status,
        board_idx,
    ))
    &&& (mode == TurnMode::Preturn ==> g2.status == game.status)
    &&& (mode == TurnMode::Normal ==> g2.turn_log@.len() == game.turn_log@.len() + 1 && ({
        let rec = g2.turn_log@.last();
        &&& rec.player_id == (BughousePlayerId { board_idx, force })
        &&& rec.turn_expanded.turn == t
        &&& rec.turn_expanded.algebraic@ == turn_notation_chars(b.grid@, b.last_turn, t)
        &&& rec.time == now
        &&& (forall|j: int|
            0 <= j < game.turn_log@.len() ==> record_eq(#[trigger] g2.turn_log@[j], game.turn_log@[j]))
    }))
    &&& (mode == TurnMode::Preturn ==> log_eq(g2.turn_log@, game.turn_log@))
}

impl BughouseGame {
    /// Applies one already-resolved turn on one board, with capture routing,
    /// status aggregation and logging.
    pub fn apply_turn(
        &mut self,
        board_idx: BughouseBoard,
        turn: &Turn,
        mode: TurnMode,
        now: GameInstant,
    ) -> (r: Result<Option<Capture>, TurnError>)
        requires
            old(self).wf_core(),
            turn.wf(),
            mode == TurnMode::Normal ==> old(self).wf(),
        ensures
            final(self).wf_core(),
            mode == TurnMode::Normal && old(self).wf() ==> final(self).wf(),
            r == apply_turn_result(*old(self), board_idx, *turn, mode),
            r is Err ==> *final(self) == *old(self),
            r is Ok ==> game_stepped(*old(self), board_idx, *turn, mode, now, *final(self)),
    {
        if mode == TurnMode::Normal && !matches!(self.status, BughouseGameStatus::Active) {
            return Err(TurnError::GameOver);
        }
        let board = match board_idx {
            BughouseBoard::A => &self.board_a,
            BughouseBoard::B => &self.board_b,
        };
        let force = match mode {
            TurnMode::Normal => board.active_force,
            TurnMode::Preturn => board.active_force.opponent(),
        };
        let algebraic_or = turn_to_algebraic(&board.grid, &board.last_turn, turn);
        match mode {
            TurnMode::Normal => {
                let board = match board_idx {
                    BughouseBoard::A => &mut self.board_a,
                    BughouseBoard::B => &mut self.board_b,
                };
                let capture_or = match board.try_turn(turn, now) {
                    Ok(c) => c,
                    Err(e) => {
                        return Err(e);
                    },
                };
                let board_status = match board_idx {
                    BughouseBoard::A => self.board_a.status,
                    BughouseBoard::B => self.board_b.status,
                };
                if let Some(capture) = capture_or {
                    let other_board = match board_idx {
                        BughouseBoard::A => &mut self.board_b,
                        BughouseBoard::B => &mut self.board_a,
                    };
                    other_board.receive_capture(&capture);
                }
                let algebraic = algebraic_or.unwrap();
                self.turn_log.push(
                    TurnRecordExpanded {
                        player_id: BughousePlayerId { board_idx, force },
                        turn_expanded: TurnExpanded { turn: *turn, algebraic },
                        time: now,
                    },
                );
                if let ChessGameStatus::Victory(f, VictoryReason::Checkmate) = board_status {
                    self.status = BughouseGameStatus::Victory(
                        BughousePlayerId { board_idx, force: f }.team(),
                        VictoryReason::Checkmate,
                    );
                }
                Ok(capture_or)
            },
            TurnMode::Preturn => {
                let board = match board_idx {
                    BughouseBoard::A => &mut self.board_a,
                    BughouseBoard::B => &mut self.board_b,
                };
                let capture_or = match board.apply_preturn(turn) {
                    Ok(c) => c,
                    Err(e) => {
                        return Err(e);
                    },
                };
                if let Some(capture) = capture_or {
                    let other_board = match board_idx {
                        BughouseBoard::A => &mut self.board_b,
                        BughouseBoard::B => &mut self.board_a,
                    };
                    other_board.receive_capture(&capture);
                }
                Ok(capture_or)
            },
        }
    }

    /// Makes one turn on one board from a turn input. On success the capture
    /// (if any) enters the matching reserve on the partner board and a
    /// checkmate ends the whole game. A pre-turn is applied speculatively
    /// and is not logged.
    pub fn try_turn(
        &mut self,
        board_idx: BughouseBoard,
        turn_input: &TurnInput,
        mode: TurnMode,
        now: GameInstant,
    ) -> (r: Result<Turn, TurnError>)
        requires
            old(self).wf_core(),
            mode == TurnMode::Normal ==> old(self).wf(),
        ensures
            final(self).wf_core(),
            mode == TurnMode::Normal && old(self).wf() ==> final(self).wf(),
            r == game_turn_result(*old(self), board_idx, *turn_input, mode),
            r is Err ==> *final(self) == *old(self),
            r matches Ok(t) ==> t.wf() && game_stepped(
                *old(self),
                board_idx,
                t,
                mode,
                now,
                *final(self),
            ),
    {
        if mode == TurnMode::Normal && !matches!(self.status, BughouseGameStatus::Active) {
            return Err(TurnError::GameOver);
        }
        let board = match board_idx {
            BughouseBoard::A => &self.board_a,
            BughouseBoard::B => &self.board_b,
        };
        let force = match mode {
            TurnMode::Normal => board.active_force,
            TurnMode::Preturn => board.active_force.opponent(),
        };
        let turn = match resolve_turn_input(board, force, turn_input) {
            Ok(t) => t,
            Err(e) => {
                return Err(e);
            },
        };
        match self.apply_turn(board_idx, &turn, mode, now) {
            Ok(_) => Ok(turn),
            Err(e) => Err(e),
        }
    }

    /// Detects flag falls at `now`: a flagged player loses for their team;
    /// two flagged teams draw the game.
    pub fn test_flags(&mut self, now: GameInstant)
        requires
            old(self).wf_core(),
        ensures
            final(self).wf_core(),
            old(self).wf() ==> final(self).wf(),
            old(self).status != BughouseGameStatus::Active ==> *final(self) == *old(self),
            old(self).status == BughouseGameStatus::Active ==> final(self).status == flags_status(
                *old(self),
                now,
            ),
            same_board_but_clock(final(self).board_a, old(self).board_a),
            same_board_but_clock(final(self).board_b, old(self).board_b),
            final(self).turn_log == old(self).turn_log,
            final(self).players == old(self).players,
            final(self).starting_position == old(self).starting_position,
            flags_status(*old(self), now) == BughouseGameStatus::Active || old(self).status
                != BughouseGameStatus::Active ==> final(self).board_a.clock == old(
                self,
            ).board_a.clock && final(self).board_b.clock == old(self).board_b.clock,
    {
        if !matches!(self.status, BughouseGameStatus::Active) {
            return ;
        }
        let a_flag_team: Option<Team> = match self.board_a.clock.active_force() {
            Some(af) => {
                if self.board_a.clock.is_flagged(af, now) {
                    Some(BughousePlayerId { board_idx: BughouseBoard::A, force: af }.team())
                } else {
                    None
                }
            },
            None => None,
        };
        let b_flag_team: Option<Team> = match self.board_b.clock.active_force() {
            Some(bf) => {
                if self.board_b.clock.is_flagged(bf, now) {
                    Some(BughousePlayerId { board_idx: BughouseBoard::B, force: bf }.team())
                } else {
                    None
                }
            },
            None => None,
        };
        let red_flagged = a_flag_team == Some(Team::Red) || b_flag_team == Some(Team::Red);
        let blue_flagged = a_flag_team == Some(Team::Blue) || b_flag_team == Some(Team::Blue);
        proof {
            assert(red_flagged == team_flagged(*self, Team::Red, now));
            assert(blue_flagged == team_flagged(*self, Team::Blue, now));
        }
        if red_flagged && blue_flagged {
            self.set_status(BughouseGameStatus::Draw(DrawReason::SimultaneousFlag), now);
        } else if red_flagged {
            self.set_status(BughouseGameStatus::Victory(Team::Blue, VictoryReason::Flag), now);
        } else if blue_flagged {
            self.set_status(BughouseGameStatus::Victory(Team::Red, VictoryReason::Flag), now);
        }
    }
}

/// The clock was stopped at `now`: nothing ticks and each force keeps
/// exactly the time it had left.
pub open spec fn clock_stopped(c2: crate::clock::Clock, c: crate::clock::Clock, now: GameInstant) -> bool {
    &&& c2.spec_turn_state() is None
    &&& (forall|f: Force| c2.remaining(f) == c.spec_time_left(f, now))
}

/// Everything of the board other than its clock is unchanged.
pub open spec fn same_board_but_clock(b1: Board, b2: Board) -> bool {
    &&& b1.chess_rules == b2.chess_rules
    &&& b1.bughouse_rules == b2.bughouse_rules
    &&& b1.status == b2.status
    &&& b1.grid == b2.grid
    &&& b1.castle_rights_white == b2.castle_rights_white
    &&& b1.castle_rights_black == b2.castle_rights_black
    &&& b1.reserve_white == b2.reserve_white
    &&& b1.reserve_black == b2.reserve_black
    &&& b1.last_turn == b2.last_turn
    &&& b1.active_force == b2.active_force
}

/// The ticking player on this board has run out of time and plays for
/// `team`.
pub open spec fn team_flagged(g: BughouseGame, team: Team, now: GameInstant) -> bool {
    ||| (g.board_a.clock.spec_turn_state() matches Some(ts) && g.board_a.clock.spec_time_left(
        ts.force,
        now,
    ) == 0 && (BughousePlayerId { board_idx: BughouseBoard::A, force: ts.force }).spec_team()
        == team)
    ||| (g.board_b.clock.spec_turn_state() matches Some(ts) && g.board_b.clock.spec_time_left(
        ts.force,
        now,
    ) == 0 && (BughousePlayerId { board_idx: BughouseBoard::B, force: ts.force }).spec_team()
        == team)
}

/// The status flag detection at `now` produces on an active game.
pub open spec fn flags_status(g: BughouseGame, now: GameInstant) -> BughouseGameStatus {
    if team_flagged(g, Team::Red, now) && team_flagged(g, Team::Blue, now) {
        BughouseGameStatus::Draw(DrawReason::SimultaneousFlag)
    } else if team_flagged(g, Team::Red, now) {
        BughouseGameStatus::Victory(Team::Blue, VictoryReason::Flag)
    } else if team_flagged(g, Team::Blue, now) {
        BughouseGameStatus::Victory(Team::Red, VictoryReason::Flag)
    } else {
        BughouseGameStatus::Active
    }
}

/// Everything of the board other than grid and reserves is unchanged.
pub open spec fn same_board_but_grid_reserves(b1: Board, b2: Board) -> bool {
    &&& b1.chess_rules == b2.chess_rules
    &&& b1.bughouse_rules == b2.bughouse_rules
    &&& b1.status == b2.status
    &&& b1.castle_rights_white == b2.castle_rights_white
    &&& b1.castle_rights_black == b2.castle_rights_black
    &&& b1.last_turn == b2.last_turn
    &&& b1.active_force == b2.active_force
    &&& b1.clock == b2.clock
}

} // verus!

// The single-board chess game.
verus! {

/// A plain chess game on one board (no bughouse rules, no reserves).
pub struct ChessGame {
    pub board: Board,
    pub players: Vec<String>,
}

/// How a successful turn steps a board: the relation behind `try_turn`'s
/// postcondition, usable to chain several turns.
pub open spec fn board_stepped(b: Board, t: Turn, now: GameInstant, b2: Board) -> bool {
    &&& try_turn_result(b, t) is Ok
    &&& b2.grid@ == turn_outcome(b, t)->Ok_0.0
    &&& b2.active_force == b.active_force.opponent()
    &&& b2.last_turn == Some(t)
    &&& b2.status == next_status(b, t, turn_outcome(b, t)->Ok_0.0)
    &&& (forall|f: Force| b2.rights(f) == next_rights(b, t, f))
    &&& (forall|f: Force| b2.reserve(f) == next_reserve(b, t, f))
    &&& b2.chess_rules == b.chess_rules
    &&& b2.bughouse_rules == b.bughouse_rules
    &&& b2.wf()
}

pub open spec fn is_ws(c: char) -> bool {
    c == ' ' || c == '\n' || c == '\t' || c == '\r'
}

pub open spec fn is_digit(c: char) -> bool {
    c == '0' || c == '1' || c == '2' || c == '3' || c == '4' || c == '5' || c == '6' || c == '7'
        || c == '8' || c == '9'
}

/// Length of the whitespace-free token starting at `i`.
pub open spec fn token_len(cs: Seq<char>, i: int) -> int
    decreases cs.len() - i,
{
    if 0 <= i < cs.len() && !is_ws(cs[i]) {
        1 + token_len(cs, i + 1)
    } else {
        0
    }
}

/// The whitespace-separated tokens of the suffix of `cs` starting at `i`.
pub open spec fn tokens_from(cs: Seq<char>, i: int) -> Seq<Seq<char>>
    decreases cs.len() - i,
    via tokens_from_dec
{
    if i < 0 || i >= cs.len() {
        Seq::empty()
    } else if is_ws(cs[i]) {
        tokens_from(cs, i + 1)
    } else {
        seq![cs.subrange(i, i + token_len(cs, i))] + tokens_from(cs, i + token_len(cs, i))
    }
}

#[via_fn]
proof fn tokens_from_dec(cs: Seq<char>, i: int) {
    if 0 <= i && i < cs.len() && !is_ws(cs[i]) {
        lemma_token_len(cs, i);
        lemma_token_len(cs, i + 1);
    }
}

pub proof fn lemma_token_len(cs: Seq<char>, i: int)
    requires
        0 <= i <= cs.len(),
    ensures
        0 <= token_len(cs, i),
        i + token_len(cs, i) <= cs.len(),
    decreases cs.len() - i,
{
    if i < cs.len() && !is_ws(cs[i]) {
        lemma_token_len(cs, i + 1);
    }
}

/// The whitespace-separated tokens of a string.
pub open spec fn tokens_spec(cs: Seq<char>) -> Seq<Seq<char>> {
    tokens_from(cs, 0)
}

/// Leading digits of a token.
pub open spec fn digits_len(cs: Seq<char>, i: int) -> int
    decreases cs.len() - i,
{
    if 0 <= i < cs.len() && is_digit(cs[i]) {
        1 + digits_len(cs, i + 1)
    } else {
        0
    }
}

/// A token with a turn-number prefix such as `12.` stripped.
pub open spec fn strip_number_spec(cs: Seq<char>) -> Seq<char> {
    let d = digits_len(cs, 0);
    if d >= 1 && d < cs.len() && cs[d] == '.' {
        cs.subrange(d + 1, cs.len() as int)
    } else {
        cs
    }
}

/// What parsing and applying one replay token does to a board.
pub open spec fn token_turn(b: Board, tok: Seq<char>) -> Result<Turn, TurnError> {
    algebraic_turn_spec(b.grid@, b.active_force, b.last_turn, strip_number_spec(tok))
}

pub open spec fn replay_step(b: Board, tok: Seq<char>, now: GameInstant, b2: Board) -> bool {
    &&& token_turn(b, tok) matches Ok(t) && board_stepped(b, t, now, b2)
}

pub open spec fn replay_step_error(b: Board, tok: Seq<char>, e: TurnError) -> bool {
    match token_turn(b, tok) {
        Err(pe) => e == pe,
        Ok(t) => try_turn_result(b, t) == Err::<Option<Capture>, TurnError>(e),
    }
}

/// The boards visited while replaying a log: each token steps the previous
/// board; on an error the replay stops at the failing token.
pub open spec fn replay_chain(
    toks: Seq<Seq<char>>,
    bs: Seq<Board>,
    now: GameInstant,
    r: Result<(), TurnError>,
) -> bool {
    &&& 1 <= bs.len() <= toks.len() + 1
    &&& (forall|i: int| 0 <= i < bs.len() - 1 ==> replay_step(bs[i], toks[i], now, #[trigger] bs[i + 1]))
    &&& match r {
        Ok(_) => bs.len() == toks.len() + 1,
        Err(e) => bs.len() <= toks.len() && replay_step_error(bs.last(), toks[bs.len() - 1], e),
    }
}

fn is_ws_at(cs: &Vec<char>, j: usize) -> (r: bool)
    requires
        j < cs@.len(),
    ensures
        r == is_ws(cs@[j as int]),
{
    let c = cs[j];
    c == ' ' || c == '\n' || c == '\t' || c == '\r'
}

/// Splits a string into whitespace-separated tokens. Decides `tokens_spec`.
#[verifier::loop_isolation(false)]
pub fn split_tokens(cs: &Vec<char>) -> (r: Vec<Vec<char>>)
    ensures
        r@.map_values(|t: Vec<char>| t@) == tokens_spec(cs@),
{
    let n = cs.len();
    let mut acc: Vec<Vec<char>> = Vec::new();
    let mut i: usize = 0;
    while i < n
        invariant
            i <= n,
            tokens_spec(cs@) == acc@.map_values(|t: Vec<char>| t@) + tokens_from(cs@, i as int),
        decreases n - i,
    {
        let c = cs[i];
        if c == ' ' || c == '\n' || c == '\t' || c == '\r' {
            i = i + 1;
        } else {
            let start = i;
            while i < n && !is_ws_at(cs, i)
                invariant
                    start <= i <= n,
                    token_len(cs@, start as int) == (i - start) + token_len(cs@, i as int),
                decreases n - i,
            {
                i = i + 1;
            }
            assert(token_len(cs@, i as int) == 0);
            assert(token_len(cs@, start as int) == i - start);
            let mut tok: Vec<char> = Vec::new();
            let mut k: usize = start;
            while k < i
                invariant
                    start <= k <= i,
                    tok@ == cs@.subrange(start as int, k as int),
                decreases i - k,
            {
                tok.push(cs[k]);
                assert(tok@ =~= cs@.subrange(start as int, k + 1));
                k = k + 1;
            }
            let ghost old_acc = acc@;
            acc.push(tok);
            proof {
                assert(acc@.map_values(|t: Vec<char>| t@) =~= old_acc.map_values(
                    |t: Vec<char>| t@,
                ).push(tok@));
                assert(tokens_from(cs@, start as int) == seq![cs@.subrange(
                    start as int,
                    start + token_len(cs@, start as int),
                )] + tokens_from(cs@, start + token_len(cs@, start as int)));
                assert(tok@ == cs@.subrange(start as int, start + token_len(cs@, start as int)));
                assert(tokens_spec(cs@) =~= acc@.map_values(|t: Vec<char>| t@) + tokens_from(
                    cs@,
                    i as int,
                ));
            }
        }
    }
    assert(tokens_from(cs@, n as int) =~= Seq::<Seq<char>>::empty());
    assert(tokens_spec(cs@) =~= acc@.map_values(|t: Vec<char>| t@));
    acc
}

/// Strips a leading turn number such as `12.` from a token. Decides
/// `strip_number_spec`.
#[verifier::loop_isolation(false)]
pub fn strip_turn_number(tok: &Vec<char>) -> (r: Vec<char>)
    ensures
        r@ == strip_number_spec(tok@),
{
    let n = tok.len();
    let mut d: usize = 0;
    while d < n
        invariant
            d <= n,
            digits_len(tok@, 0) == d + digits_len(tok@, d as int),
        decreases n - d,
    {
        let c = tok[d];
        if c == '0' || c == '1' || c == '2' || c == '3' || c == '4' || c == '5' || c == '6' || c
            == '7' || c == '8' || c == '9' {
            d = d + 1;
        } else {
            break ;
        }
    }
    proof {
        if d < n {
            assert(digits_len(tok@, d as int) == 0);
        } else {
            assert(digits_len(tok@, d as int) == 0);
        }
    }
    if d >= 1 && d < n && tok[d] == '.' {
        let mut out: Vec<char> = Vec::new();
        let mut i: usize = d + 1;
        while i < n
            invariant
                d + 1 <= i <= n,
                out@ == tok@.subrange(d + 1, i as int),
            decreases n - i,
        {
            out.push(tok[i]);
            assert(out@ =~= tok@.subrange(d + 1, i + 1));
            i = i + 1;
        }
        assert(out@ =~= strip_number_spec(tok@));
        out
    } else {
        let mut out: Vec<char> = Vec::new();
        let mut i: usize = 0;
        while i < n
            invariant
                i <= n,
                out@ == tok@.subrange(0, i as int),
            decreases n - i,
        {
            out.push(tok[i]);
            assert(out@ =~= tok@.subrange(0, i + 1));
            i = i + 1;
        }
        assert(out@ =~= strip_number_spec(tok@));
        out
    }
}

impl ChessGame {
    pub open spec fn wf(self) -> bool {
        self.board.wf() && self.board.bughouse_rules is None
    }

    pub fn new_with_starting_position(
        rules: ChessRules,
        position: EffectiveStartingPosition,
        players: Vec<String>,
    ) -> (r: ChessGame)
        requires
            position.wf(),
        ensures
            r.wf(),
            fresh_board(r.board, rules),
            r.board.bughouse_rules is None,
            r.players == players,
            grid_is_start(r.board.grid@, crate::starting::position_kinds(position)),
    {
        let grid = generate_starting_grid(&position);
        ChessGame { board: Board::new(rules, None, grid), players }
    }

    pub fn new(rules: ChessRules, players: Vec<String>) -> (r: ChessGame)
        ensures
            r.wf(),
            fresh_board(r.board, rules),
            r.board.bughouse_rules is None,
            r.players == players,
            exists|ks: Seq<crate::piece::PieceKind>|
                #[trigger] grid_is_start(r.board.grid@, ks) && (match rules.starting_position {
                    StartingPosition::Classic => ks == crate::starting::classic_kinds(),
                    StartingPosition::FischerRandom => crate::starting::layout_full(ks),
                }),
    {
        let position = match rules.starting_position {
            StartingPosition::Classic => EffectiveStartingPosition::Classic,
            StartingPosition::FischerRandom => EffectiveStartingPosition::FischerRandom(
                fischer_random_layout(),
            ),
        };
        let r = Self::new_with_starting_position(rules, position, players);
        proof {
            assert(grid_is_start(r.board.grid@, crate::starting::position_kinds(position)));
        }
        r
    }

    pub fn status(&self) -> (r: ChessGameStatus)
        ensures
            r == self.board.status,
    {
        self.board.status
    }

    pub fn board(&self) -> (r: &Board)
        ensures
            *r == self.board,
    {
        &self.board
    }

    /// Makes one turn for the active force.
    pub fn try_turn(&mut self, turn_input: &TurnInput, mode: TurnMode, now: GameInstant) -> (r:
        Result<Turn, TurnError>)
        requires
            old(self).wf(),
            mode == TurnMode::Normal,
        ensures
            final(self).wf(),
            final(self).players == old(self).players,
            r == (match resolve_input_spec(old(self).board, old(self).board.active_force, *turn_input) {
                Err(e) => Err(e),
                Ok(t) => match try_turn_result(old(self).board, t) {
                    Err(e) => Err::<Turn, TurnError>(e),
                    Ok(_) => Ok::<Turn, TurnError>(t),
                },
            }),
            r is Err ==> *final(self) == *old(self),
            r matches Ok(t) ==> board_stepped(old(self).board, t, now, final(self).board),
    {
        let turn = match resolve_turn_input(&self.board, self.board.active_force, turn_input) {
            Ok(t) => t,
            Err(e) => {
                return Err(e);
            },
        };
        match self.board.try_turn(&turn, now) {
            Ok(_) => Ok(turn),
            Err(e) => Err(e),
        }
    }

    /// Parses one algebraic turn and makes it.
    pub fn try_turn_from_algebraic(&mut self, notation: &str, now: GameInstant) -> (r: Result<
        (),
        TurnError,
    >)
        requires
            old(self).wf(),
        ensures
            final(self).wf(),
            final(self).players == old(self).players,
            r == (match algebraic_turn_spec(
                old(self).board.grid@,
                old(self).board.active_force,
                old(self).board.last_turn,
                notation@,
            ) {
                Err(e) => Err(e),
                Ok(t) => match try_turn_result(old(self).board, t) {
                    Err(e) => Err::<(), TurnError>(e),
                    Ok(_) => Ok::<(), TurnError>(()),
                },
            }),
            r is Err ==> *final(self) == *old(self),
    {
        let turn = match turn_from_algebraic(
            &self.board.grid,
            self.board.active_force,
            &self.board.last_turn,
            notation,
        ) {
            Ok(t) => t,
            Err(e) => {
                return Err(e);
            },
        };
        match self.board.try_turn(&turn, now) {
            Ok(_) => Ok(()),
            Err(e) => Err(e),
        }
    }

    /// Renders the position as eight lines of unicode glyphs, rank 8
    /// first.
    pub fn render_as_unicode(&self) -> (r: String)
        requires
            self.wf(),
        ensures
            r@ == crate::grid::grid_unicode(self.board.grid@),
    {
        self.board.grid.render_as_unicode()
    }

    /// Replays a whitespace-separated log of algebraic turns, `12.`-style
    /// turn numbers allowed. The boards visited form a `replay_chain`.
    #[verifier::loop_isolation(false)]
    pub fn try_replay_log(&mut self, log: &str, now: GameInstant) -> (r: Result<(), TurnError>)
        requires
            old(self).wf(),
        ensures
            final(self).wf(),
            final(self).players == old(self).players,
            exists|bs: Seq<Board>|
                #[trigger] replay_chain(tokens_spec(log@), bs, now, r) && bs[0] == old(self).board
                    && bs.last() == final(self).board,
    {
        let cs = crate::algebraic::str_chars(log);
        let toks = split_tokens(&cs);
        let ghost toks_view = toks@.map_values(|t: Vec<char>| t@);
        let mut i: usize = 0;
        let ghost mut bs: Seq<Board> = seq![self.board];
        while i < toks.len()
            invariant
                i <= toks@.len(),
                self.wf(),
                self.players == old(self).players,
                bs.len() == i + 1,
                bs[0] == old(self).board,
                bs.last() == self.board,
                forall|j: int|
                    0 <= j < bs.len() - 1 ==> replay_step(bs[j], toks_view[j], now, #[trigger] bs[j
                        + 1]),
            decreases toks@.len() - i,
        {
            let stripped = strip_turn_number(&toks[i]);
            let ghost before = self.board;
            // Apply the token as one algebraic turn.
            let token_str = chars_to_string(&stripped);
            let turn = match turn_from_algebraic(
                &self.board.grid,
                self.board.active_force,
                &self.board.last_turn,
                token_str.as_str(),
            ) {
                Ok(t) => t,
                Err(e) => {
                    proof {
                        assert(replay_step_error(bs.last(), toks_view[i as int], e));
                        assert(replay_chain(toks_view, bs, now, Err::<(), TurnError>(e)));
                    }
                    return Err(e);
                },
            };
            match self.board.try_turn(&turn, now) {
                Ok(_) => {},
                Err(e) => {
                    proof {
                        assert(replay_step_error(bs.last(), toks_view[i as int], e));
                        assert(replay_chain(toks_view, bs, now, Err::<(), TurnError>(e)));
                    }
                    return Err(e);
                },
            }
            proof {
                assert(replay_step(before, toks_view[i as int], now, self.board));
                bs = bs.push(self.board);
            }
            i = i + 1;
        }
        proof {
            assert(replay_chain(toks_view, bs, now, Ok::<(), TurnError>(())));
        }
        Ok(())
    }
}

/// Builds a string from a character sequence.
#[verifier::loop_isolation(false)]
pub fn chars_to_string(cs: &Vec<char>) -> (r: String)
    ensures
        r@ == cs@,
{
    let mut s = String::new();
    let mut i: usize = 0;
    while i < cs.len()
        invariant
            i <= cs@.len(),
            s@ == cs@.take(i as int),
        decreases cs@.len() - i,
    {
        append_char(&mut s, cs[i]);
        assert(s@ =~= cs@.take(i + 1));
        i = i + 1;
    }
    assert(s@ =~= cs@);
    s
}

/// Relies on String::push, which appends exactly the given character.
#[verifier::external_body]
fn append_char(s: &mut String, c: char)
    ensures
        final(s)@ == old(s)@.push(c),
{
    s.push(c);
}

} // verus!
