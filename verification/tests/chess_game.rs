use bughouse_chess::board::ChessGameStatus;
use bughouse_chess::board::VictoryReason;
use bughouse_chess::clock::{GameInstant, TimeControl};
use bughouse_chess::coord::Coord;
use bughouse_chess::force::Force;
use bughouse_chess::game::{sample_chess_players, ChessGame};
use bughouse_chess::piece::PieceKind;
use bughouse_chess::rules::{ChessRules, StartingPosition};
use bughouse_chess::starting::EffectiveStartingPosition;
use bughouse_chess::turn::{Turn, TurnError, TurnInput, TurnMode, TurnMove};

fn chess_classic() -> ChessGame {
    ChessGame::new(ChessRules::classic_blitz(), sample_chess_players())
}

fn chess960_from_short_fen(pieces: &str) -> ChessGame {
    let rules = ChessRules {
        starting_position: StartingPosition::FischerRandom,
        time_control: TimeControl { starting_time_ms: 300_000 },
    };
    let kinds: Vec<PieceKind> =
        pieces.chars().map(|ch| PieceKind::from_algebraic_char(ch).unwrap()).collect();
    let arr: [PieceKind; 8] = [
        kinds[0], kinds[1], kinds[2], kinds[3], kinds[4], kinds[5], kinds[6], kinds[7],
    ];
    let starting_position = EffectiveStartingPosition::FischerRandom(arr);
    ChessGame::new_with_starting_position(rules, starting_position, sample_chess_players())
}

fn replay_log(game: &mut ChessGame, log: &str) -> Result<(), TurnError> {
    game.try_replay_log(log, GameInstant::game_start())
}

fn replay_log_from_start(log: &str) -> Result<(), TurnError> {
    replay_log(&mut chess_classic(), log)
}

fn sq(row: u8, col: u8) -> Coord {
    Coord { row, col }
}

fn drag_move(from: Coord, to: Coord) -> TurnInput {
    TurnInput::DragDrop(Turn::Move(TurnMove { from, to, promote_to: None }))
}

#[test]
fn capture_notation() {
    // Capture marks + capture = ok.
    replay_log_from_start("1.Nc3 d5 2.Nxd5").unwrap();
    replay_log_from_start("1.e4 d5 2.xd5").unwrap();
    replay_log_from_start("1.e4 Nc6 2.e5 d5 3.xd6").unwrap();

    // No capture marks + capture = ok (capture mark is optional).
    replay_log_from_start("1.Nc3 d5 2.Nd5").unwrap();
    replay_log_from_start("1.e4 d5 2.d5").unwrap();
    replay_log_from_start("1.e4 Nc6 2.e5 d5 3.d6").unwrap();

    // Capture marks + no capture = fail (capture mark requires capture).
    assert_eq!(
        replay_log_from_start("1.xe3").unwrap_err(),
        TurnError::CaptureNotationRequiresCapture
    );
    assert_eq!(
        replay_log_from_start("1.Nxf3").unwrap_err(),
        TurnError::CaptureNotationRequiresCapture
    );
}

#[test]
fn wikipedia_example() {
    let mut game = chess_classic();
    replay_log(
        &mut game,
        "
        1.Nf3 Nf6 2.c4 g6 3.Nc3 Bg7 4.d4 O-O 5.Bf4 d5
        6.Qb3 dxc4 7.Qxc4 c6 8.e4 Nbd7 9.Rd1 Nb6 10.Qc5 Bg4
        11.Bg5 Na4 12.Qa3 Nxc3 13.bxc3 Nxe4 14.Bxe7 Qb6 15.Bc4 Nxc3
        16.Bc5 Rfe8+ 17.Kf1 Be6 18.Bxb6 Bxc4+ 19.Kg1 Ne2+ 20.Kf1 Nxd4+
        21.Kg1 Ne2+ 22.Kf1 Nc3+ 23.Kg1 axb6 24.Qb4 Ra4 25.Qxb6 Nxd1
        26.h3 Rxa2 27.Kh2 Nxf2 28.Re1 Rxe1 29.Qd8+ Bf8 30.Nxe1 Bd5
        31.Nf3 Ne4 32.Qb8 b5 33.h4 h5 34.Ne5 Kg7 35.Kg1 Bc5+
        36.Kf1 Ng3+ 37.Ke1 Bb4+ 38.Kd1 Bb3+ 39.Kc1 Ne2+ 40.Kb1 Nc3+
        41.Kc1 Rc2#
    ",
    )
    .unwrap();
    assert_eq!(game.status(), ChessGameStatus::Victory(Force::Black, VictoryReason::Checkmate));
}

#[test]
fn chess960_first_move_castle() {
    let mut game = chess960_from_short_fen("RBNNBKRQ");
    replay_log(&mut game, "1.0-0").unwrap();
}

#[test]
fn chess960_drag_king_onto_rook_castle() {
    let mut game = chess960_from_short_fen("RBNNBKRQ");
    game.try_turn(&drag_move(sq(0, 5), sq(0, 6)), TurnMode::Normal, GameInstant::game_start())
        .unwrap();
    let f1 = game.board().grid().get(sq(0, 5)).unwrap();
    assert!(f1.kind == PieceKind::Rook && f1.force == Force::White);
    let g1 = game.board().grid().get(sq(0, 6)).unwrap();
    assert!(g1.kind == PieceKind::King && g1.force == Force::White);
}

#[test]
fn fools_mate_is_checkmate() {
    let mut game = chess_classic();
    replay_log(&mut game, "1.f3 e5 2.g4 Qh4#").unwrap();
    assert_eq!(game.status(), ChessGameStatus::Victory(Force::Black, VictoryReason::Checkmate));
}

#[test]
fn turn_order_alternates() {
    let mut game = chess_classic();
    assert_eq!(game.board().active_force(), Force::White);
    replay_log(&mut game, "1.e4").unwrap();
    assert_eq!(game.board().active_force(), Force::Black);
    replay_log(&mut game, "e5").unwrap();
    assert_eq!(game.board().active_force(), Force::White);
}

#[test]
fn king_move_clears_castle_rights() {
    let mut game = chess_classic();
    assert!(game.board().castle_rights_white.a_side && game.board().castle_rights_white.h_side);
    replay_log(&mut game, "1.e4 e5 2.Ke2").unwrap();
    assert!(!game.board().castle_rights_white.a_side && !game.board().castle_rights_white.h_side);
    // Rights never come back.
    replay_log(&mut game, "Ke7 3.Ke1").unwrap();
    assert!(!game.board().castle_rights_white.a_side && !game.board().castle_rights_white.h_side);
    assert_eq!(
        replay_log(&mut game, "Ke8 4.Nf3 Nf6 5.Be2 Be7 6.O-O").unwrap_err(),
        TurnError::CastlingPieceHasMoved
    );
}

#[test]
fn rook_move_clears_one_side_only() {
    let mut game = chess_classic();
    replay_log(&mut game, "1.h4 h5 2.Rh3 Rh6 3.Rh1 Rh8").unwrap();
    assert!(game.board().castle_rights_white.a_side);
    assert!(!game.board().castle_rights_white.h_side);
    assert!(game.board().castle_rights_black.a_side);
    assert!(!game.board().castle_rights_black.h_side);
}

#[test]
fn classic_short_castle() {
    let mut game = chess_classic();
    replay_log(&mut game, "1.e4 e5 2.Nf3 Nc6 3.Be2 Bc5 4.O-O").unwrap();
    let g1 = game.board().grid().get(sq(0, 6)).unwrap();
    assert!(g1.kind == PieceKind::King && g1.force == Force::White);
    let f1 = game.board().grid().get(sq(0, 5)).unwrap();
    assert!(f1.kind == PieceKind::Rook && f1.force == Force::White);
    assert!(game.board().grid().get(sq(0, 4)).is_none());
    assert!(game.board().grid().get(sq(0, 7)).is_none());
}

#[test]
fn en_passant_capture_removes_pawn() {
    let mut game = chess_classic();
    replay_log(&mut game, "1.e4 Nc6 2.e5 d5 3.xd6").unwrap();
    // The black pawn that advanced two squares is gone from d5.
    assert!(game.board().grid().get(sq(4, 3)).is_none());
    let d6 = game.board().grid().get(sq(5, 3)).unwrap();
    assert!(d6.kind == PieceKind::Pawn && d6.force == Force::White);
}

#[test]
fn promotion_creates_promoted_piece() {
    let mut game = chess_classic();
    replay_log(&mut game, "1.h4 g5 2.hxg5 Nf6 3.g6 Ne4 4.g7 Nc5 5.gxh8=Q").unwrap();
    let h8 = game.board().grid().get(sq(7, 7)).unwrap();
    assert_eq!(h8.kind, PieceKind::Queen);
    assert_eq!(h8.force, Force::White);
    assert_eq!(h8.origin, bughouse_chess::piece::PieceOrigin::Promoted);
}

#[test]
fn error_variants_for_bad_moves() {
    assert_eq!(replay_log_from_start("1.xyzzy").unwrap_err(), TurnError::InvalidNotation);
    assert_eq!(replay_log_from_start("1.e5").unwrap_err(), TurnError::Unreachable);
    assert_eq!(replay_log_from_start("1.d4 a6 2.Nf3 a5 3.Nd2").unwrap_err(), TurnError::AmbiguousNotation);
    assert_eq!(replay_log_from_start("1.e4=Q").unwrap_err(), TurnError::BadPromotion);
    assert_eq!(
        replay_log_from_start("1.e4 e5 2.f4 Qh4+ 3.a3").unwrap_err(),
        TurnError::UnprotectedKing
    );

    let mut game = chess_classic();
    assert_eq!(
        game.try_turn(&drag_move(sq(4, 4), sq(5, 4)), TurnMode::Normal, GameInstant::game_start())
            .unwrap_err(),
        TurnError::PieceMissing
    );
    assert_eq!(
        game.try_turn(&drag_move(sq(6, 4), sq(5, 4)), TurnMode::Normal, GameInstant::game_start())
            .unwrap_err(),
        TurnError::WrongTurnOrder
    );
    let drop = TurnInput::DragDrop(Turn::Drop(bughouse_chess::turn::TurnDrop {
        piece_kind: PieceKind::Knight,
        to: sq(4, 4),
    }));
    assert_eq!(
        game.try_turn(&drop, TurnMode::Normal, GameInstant::game_start()).unwrap_err(),
        TurnError::DropForbidden
    );

    let mut mated = chess_classic();
    replay_log(&mut mated, "1.f3 e5 2.g4 Qh4#").unwrap();
    assert_eq!(replay_log(&mut mated, "3.a3").unwrap_err(), TurnError::GameOver);
}

#[test]
fn algebraic_round_trip_through_log() {
    let mut game = chess_classic();
    game.try_turn(&drag_move(sq(0, 6), sq(2, 5)), TurnMode::Normal, GameInstant::game_start())
        .unwrap();
    // Replaying the canonical notation on a fresh game makes the same move.
    let mut fresh = chess_classic();
    replay_log(&mut fresh, "Ng1f3").unwrap();
    let f3 = fresh.board().grid().get(sq(2, 5)).unwrap();
    assert!(f3.kind == PieceKind::Knight && f3.force == Force::White);
    assert!(fresh.board().grid().get(sq(0, 6)).is_none());
}

#[test]
fn fischer_random_layout_is_usable() {
    let rules = ChessRules {
        starting_position: StartingPosition::FischerRandom,
        time_control: TimeControl { starting_time_ms: 300_000 },
    };
    let game = ChessGame::new(rules, sample_chess_players());
    let mut kings = 0;
    let mut rooks = 0;
    let mut king_col = 0;
    let mut rook_cols = Vec::new();
    for col in 0..8 {
        let piece = game.board().grid().get(sq(0, col)).unwrap();
        assert_eq!(piece.force, Force::White);
        assert!(piece.kind != PieceKind::Pawn);
        if piece.kind == PieceKind::King {
            kings += 1;
            king_col = col;
        }
        if piece.kind == PieceKind::Rook {
            rooks += 1;
            rook_cols.push(col);
        }
        // Black's back rank mirrors White's.
        let black = game.board().grid().get(sq(7, col)).unwrap();
        assert_eq!(black.kind, piece.kind);
        assert_eq!(black.force, Force::Black);
        // Full pawn ranks.
        let pawn = game.board().grid().get(sq(1, col)).unwrap();
        assert!(pawn.kind == PieceKind::Pawn && pawn.force == Force::White);
    }
    assert_eq!(kings, 1);
    assert_eq!(rooks, 2);
    assert!(rook_cols[0] < king_col && king_col < rook_cols[1]);
}

#[test]
fn exactly_one_king_each_at_all_times() {
    let mut game = chess_classic();
    let logs = ["1.e4", "d5", "2.xd5", "Qxd5", "3.Nc3", "Qe5+", "4.Be2", "Qxe2"];
    for log in logs {
        replay_log(&mut game, log).unwrap();
        let mut white_kings = 0;
        let mut black_kings = 0;
        for row in 0..8 {
            for col in 0..8 {
                if let Some(p) = game.board().grid().get(sq(row, col)) {
                    if p.kind == PieceKind::King {
                        match p.force {
                            Force::White => white_kings += 1,
                            Force::Black => black_kings += 1,
                        }
                    }
                }
            }
        }
        assert_eq!(white_kings, 1);
        assert_eq!(black_kings, 1);
    }
}

#[test]
fn check_without_mate_keeps_the_game_active() {
    let mut game = chess_classic();
    replay_log(&mut game, "1.e4 e5 2.Qh5 Nc6 3.Qxf7+").unwrap();
    assert_eq!(game.status(), ChessGameStatus::Active);
    // The only escape is taking the queen.
    replay_log(&mut game, "Kxf7").unwrap();
    assert_eq!(game.status(), ChessGameStatus::Active);
}
