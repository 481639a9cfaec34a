use bughouse_chess::altered_game::{AlteredGame, PieceDragError, PieceDragStart};
use bughouse_chess::clock::GameInstant;
use bughouse_chess::coord::Coord;
use bughouse_chess::force::Force;
use bughouse_chess::game::{
    sample_bughouse_players, BughouseBoard, BughouseGame, BughouseParticipantId, BughousePlayerId,
};
use bughouse_chess::piece::PieceKind;
use bughouse_chess::rules::{BughouseRules, ChessRules};
use bughouse_chess::turn::{Turn, TurnError, TurnInput, TurnMove};

fn seating(force: Force, board_idx: BughouseBoard) -> BughousePlayerId {
    BughousePlayerId { board_idx, force }
}

fn as_player(player_id: BughousePlayerId) -> BughouseParticipantId {
    BughouseParticipantId::Player(player_id)
}

fn default_bughouse_game() -> BughouseGame {
    BughouseGame::new(ChessRules::classic_blitz(), BughouseRules::chess_com(), &sample_bughouse_players())
}

fn sq(row: u8, col: u8) -> Coord {
    Coord { row, col }
}

fn drag_move(from: Coord, to: Coord) -> TurnInput {
    TurnInput::DragDrop(Turn::Move(TurnMove { from, to, promote_to: None }))
}

fn algebraic_turn(algebraic: &str) -> TurnInput {
    TurnInput::Algebraic(String::from(algebraic))
}

fn is_piece(p: Option<bughouse_chess::piece::PieceOnBoard>, force: Force, kind: PieceKind) -> bool {
    match p {
        Some(p) => p.force == force && p.kind == kind,
        None => false,
    }
}

const GAME_START: GameInstant = GameInstant { elapsed_ms: 0 };

// Regression test: shouldn't panic if there's a drag depending on a local turn that was reverted.
#[test]
fn drag_depends_on_reverted_preturn() {
    let mut alt_game = AlteredGame::new(as_player(seating(Force::Black, BughouseBoard::A)), default_bughouse_game());
    alt_game.apply_remote_turn_algebraic(seating(Force::White, BughouseBoard::A), "e4", GAME_START).unwrap();
    alt_game.apply_remote_turn_algebraic(seating(Force::Black, BughouseBoard::A), "e6", GAME_START).unwrap();
    alt_game.try_local_turn(drag_move(sq(5, 4), sq(4, 4)), GAME_START).unwrap();
    alt_game.start_drag_piece(PieceDragStart::Board(sq(4, 4))).unwrap();
    alt_game.apply_remote_turn_algebraic(seating(Force::White, BughouseBoard::A), "e5", GAME_START).unwrap();
    assert_eq!(
        alt_game.drag_piece_drop(sq(3, 4), PieceKind::Queen),
        Err(PieceDragError::DragNoLongerPossible)
    );
}

// It is not allowed to have more than one preturn. However a player can start dragging a
// piece while having a preturn and finish the drag after the preturn was upgraded to a
// regular local turn (or resolved altogether).
#[test]
fn start_drag_with_a_preturn() {
    let mut alt_game = AlteredGame::new(as_player(seating(Force::White, BughouseBoard::A)), default_bughouse_game());
    alt_game.try_local_turn(drag_move(sq(1, 4), sq(2, 4)), GAME_START).unwrap();
    alt_game.try_local_turn(drag_move(sq(2, 4), sq(3, 4)), GAME_START).unwrap();
    alt_game.start_drag_piece(PieceDragStart::Board(sq(3, 4))).unwrap();
    alt_game.apply_remote_turn_algebraic(seating(Force::White, BughouseBoard::A), "e3", GAME_START).unwrap();
    alt_game.apply_remote_turn_algebraic(seating(Force::Black, BughouseBoard::A), "Nc6", GAME_START).unwrap();
    let drag_result = alt_game.drag_piece_drop(sq(4, 4), PieceKind::Queen).unwrap();
    assert_eq!(drag_result, drag_move(sq(3, 4), sq(4, 4)));
}

// Regression test: keep local preturn after getting an opponent's turn.
#[test]
fn pure_preturn_persistent() {
    let mut alt_game = AlteredGame::new(as_player(seating(Force::Black, BughouseBoard::A)), default_bughouse_game());
    alt_game.try_local_turn(algebraic_turn("e5"), GAME_START).unwrap();
    alt_game.apply_remote_turn_algebraic(seating(Force::White, BughouseBoard::A), "e4", GAME_START).unwrap();
    let local = alt_game.local_game();
    assert!(is_piece(local.board(BughouseBoard::A).grid().get(sq(4, 4)), Force::Black, PieceKind::Pawn));
}

#[test]
fn preturn_invalidated() {
    let mut alt_game = AlteredGame::new(as_player(seating(Force::White, BughouseBoard::A)), default_bughouse_game());
    alt_game.apply_remote_turn_algebraic(seating(Force::White, BughouseBoard::A), "e4", GAME_START).unwrap();
    alt_game.try_local_turn(algebraic_turn("e5"), GAME_START).unwrap();
    let local = alt_game.local_game();
    assert!(is_piece(local.board(BughouseBoard::A).grid().get(sq(4, 4)), Force::White, PieceKind::Pawn));

    alt_game.apply_remote_turn_algebraic(seating(Force::Black, BughouseBoard::A), "e5", GAME_START).unwrap();
    let local = alt_game.local_game();
    assert!(is_piece(local.board(BughouseBoard::A).grid().get(sq(4, 4)), Force::Black, PieceKind::Pawn));
}

#[test]
fn preturn_after_local_turn_persistent() {
    let mut alt_game = AlteredGame::new(as_player(seating(Force::White, BughouseBoard::A)), default_bughouse_game());
    alt_game.try_local_turn(algebraic_turn("e4"), GAME_START).unwrap();
    alt_game.try_local_turn(algebraic_turn("e5"), GAME_START).unwrap();
    let local = alt_game.local_game();
    assert!(is_piece(local.board(BughouseBoard::A).grid().get(sq(4, 4)), Force::White, PieceKind::Pawn));

    alt_game.apply_remote_turn_algebraic(seating(Force::White, BughouseBoard::A), "e4", GAME_START).unwrap();
    let local = alt_game.local_game();
    assert!(is_piece(local.board(BughouseBoard::A).grid().get(sq(4, 4)), Force::White, PieceKind::Pawn));

    alt_game.apply_remote_turn_algebraic(seating(Force::Black, BughouseBoard::A), "Nc6", GAME_START).unwrap();
    let local = alt_game.local_game();
    assert!(is_piece(local.board(BughouseBoard::A).grid().get(sq(4, 4)), Force::White, PieceKind::Pawn));
}

#[test]
fn two_preturns_forbidden() {
    let mut alt_game = AlteredGame::new(as_player(seating(Force::White, BughouseBoard::A)), default_bughouse_game());
    alt_game.try_local_turn(drag_move(sq(1, 4), sq(3, 4)), GAME_START).unwrap();
    alt_game.try_local_turn(drag_move(sq(1, 3), sq(3, 3)), GAME_START).unwrap();
    assert_eq!(
        alt_game.try_local_turn(drag_move(sq(1, 5), sq(3, 5)), GAME_START),
        Err(TurnError::PreturnLimitReached)
    );
}

// When no speculation is pending, the local game shows exactly the
// confirmed state.
#[test]
fn local_game_equals_confirmed_without_speculation() {
    let mut alt_game = AlteredGame::new(as_player(seating(Force::White, BughouseBoard::A)), default_bughouse_game());
    alt_game.apply_remote_turn_algebraic(seating(Force::White, BughouseBoard::A), "e4", GAME_START).unwrap();
    alt_game.apply_remote_turn_algebraic(seating(Force::Black, BughouseBoard::A), "e5", GAME_START).unwrap();
    let local = alt_game.local_game();
    for row in 0..8 {
        for col in 0..8 {
            assert_eq!(
                local.board(BughouseBoard::A).grid().get(sq(row, col)),
                alt_game.game_confirmed().board(BughouseBoard::A).grid().get(sq(row, col))
            );
            assert_eq!(
                local.board(BughouseBoard::B).grid().get(sq(row, col)),
                alt_game.game_confirmed().board(BughouseBoard::B).grid().get(sq(row, col))
            );
        }
    }
}
