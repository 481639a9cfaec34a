use bughouse_chess::board::Reserve;
use bughouse_chess::clock::GameInstant;
use bughouse_chess::coord::Coord;
use bughouse_chess::event::{BughouseServerEvent, Scores, TurnRecord};
use bughouse_chess::force::Force;
use bughouse_chess::game::{
    sample_bughouse_players, BughouseBoard, BughouseGame, BughouseGameStatus, Team,
};
use bughouse_chess::client::{ClientState, ContestState, NotableEvent};
use bughouse_chess::pgn::{export_to_bpgn, BughouseExportFormat, TextDocument, u64_to_string};
use bughouse_chess::piece::PieceKind;
use bughouse_chess::rules::{BughouseRules, ChessRules, DropAggression};
use bughouse_chess::starting::EffectiveStartingPosition;
use bughouse_chess::turn::{Turn, TurnDrop, TurnError, TurnInput, TurnMode};

const GAME_START: GameInstant = GameInstant { elapsed_ms: 0 };

fn default_bughouse_game() -> BughouseGame {
    BughouseGame::new(ChessRules::classic_blitz(), BughouseRules::chess_com(), &sample_bughouse_players())
}

fn sq(row: u8, col: u8) -> Coord {
    Coord { row, col }
}

fn alg(s: &str) -> TurnInput {
    TurnInput::Algebraic(String::from(s))
}

fn reserve_count(r: &Reserve, kind: PieceKind) -> u8 {
    r.count(kind)
}

#[test]
fn capture_routing_to_partner_reserve() {
    let mut game = default_bughouse_game();
    game.try_turn(BughouseBoard::A, &alg("e4"), TurnMode::Normal, GAME_START).unwrap();
    game.try_turn(BughouseBoard::A, &alg("d5"), TurnMode::Normal, GAME_START).unwrap();
    game.try_turn(BughouseBoard::A, &alg("xd5"), TurnMode::Normal, GAME_START).unwrap();
    // White on board A captured a black pawn: Black on board B can drop it.
    let reserve = &game.board(BughouseBoard::B).reserve_black;
    assert_eq!(reserve_count(reserve, PieceKind::Pawn), 1);
    assert_eq!(reserve_count(reserve, PieceKind::Knight), 0);
    let other = &game.board(BughouseBoard::B).reserve_white;
    assert_eq!(reserve_count(other, PieceKind::Pawn), 0);
    let own = &game.board(BughouseBoard::A).reserve_black;
    assert_eq!(reserve_count(own, PieceKind::Pawn), 0);
}

#[test]
fn drop_consumes_reserve_and_respects_rows() {
    let mut game = default_bughouse_game();
    game.try_turn(BughouseBoard::A, &alg("e4"), TurnMode::Normal, GAME_START).unwrap();
    game.try_turn(BughouseBoard::A, &alg("d5"), TurnMode::Normal, GAME_START).unwrap();
    game.try_turn(BughouseBoard::A, &alg("xd5"), TurnMode::Normal, GAME_START).unwrap();
    game.try_turn(BughouseBoard::B, &alg("e4"), TurnMode::Normal, GAME_START).unwrap();
    // Black on board B may not drop the pawn on a back rank.
    let bad_drop = TurnInput::DragDrop(Turn::Drop(TurnDrop { piece_kind: PieceKind::Pawn, to: sq(0, 4) }));
    assert_eq!(
        game.try_turn(BughouseBoard::B, &bad_drop, TurnMode::Normal, GAME_START).unwrap_err(),
        TurnError::DropPosition
    );
    // A drop in the middle works and consumes the reserve.
    game.try_turn(BughouseBoard::B, &alg("P@e5"), TurnMode::Normal, GAME_START).unwrap();
    let e5 = game.board(BughouseBoard::B).grid().get(sq(4, 4)).unwrap();
    assert!(e5.kind == PieceKind::Pawn && e5.force == Force::Black);
    assert_eq!(e5.origin, bughouse_chess::piece::PieceOrigin::Dropped);
    assert_eq!(reserve_count(&game.board(BughouseBoard::B).reserve_black, PieceKind::Pawn), 0);
    // The reserve is spent: another drop fails.
    game.try_turn(BughouseBoard::B, &alg("Nf3"), TurnMode::Normal, GAME_START).unwrap();
    game.try_turn(BughouseBoard::B, &alg("d5"), TurnMode::Normal, GAME_START).unwrap();
    game.try_turn(BughouseBoard::B, &alg("Nc3"), TurnMode::Normal, GAME_START).unwrap();
    assert_eq!(
        game.try_turn(BughouseBoard::B, &alg("P@e6"), TurnMode::Normal, GAME_START).unwrap_err(),
        TurnError::DropPieceMissing
    );
}

#[test]
fn drop_aggression_no_check() {
    let rules = BughouseRules {
        min_pawn_drop_row: 2,
        max_pawn_drop_row: 7,
        drop_aggression: DropAggression::NoCheck,
    };
    let mut game = BughouseGame::new(ChessRules::classic_blitz(), rules, &sample_bughouse_players());
    game.try_turn(BughouseBoard::B, &alg("Nc3"), TurnMode::Normal, GAME_START).unwrap();
    game.try_turn(BughouseBoard::B, &alg("d5"), TurnMode::Normal, GAME_START).unwrap();
    game.try_turn(BughouseBoard::B, &alg("Nxd5"), TurnMode::Normal, GAME_START).unwrap();
    game.try_turn(BughouseBoard::B, &alg("Qxd5"), TurnMode::Normal, GAME_START).unwrap();
    // White on board A now holds a knight; dropping it with check is refused.
    game.try_turn(BughouseBoard::A, &alg("e4"), TurnMode::Normal, GAME_START).unwrap();
    game.try_turn(BughouseBoard::A, &alg("e5"), TurnMode::Normal, GAME_START).unwrap();
    assert_eq!(
        game.try_turn(BughouseBoard::A, &alg("N@f6"), TurnMode::Normal, GAME_START).unwrap_err(),
        TurnError::DropAggression
    );
    // A quiet drop is fine.
    game.try_turn(BughouseBoard::A, &alg("N@f3"), TurnMode::Normal, GAME_START).unwrap();
}

#[test]
fn checkmate_ends_the_bughouse_game() {
    let mut game = default_bughouse_game();
    for turn in ["f3", "e5", "g4", "Qh4"] {
        game.try_turn(BughouseBoard::A, &alg(turn), TurnMode::Normal, GAME_START).unwrap();
    }
    // A queen next to the king can be blocked by a drop, so the game only
    // ends under bughouse rules if no drop can help; here g3 interposes.
    assert_eq!(game.status(), BughouseGameStatus::Active);
}

#[test]
fn client_lifecycle_lobby_and_game() {
    let mut client = ClientState::new(String::from("Alice"), Team::Red);
    client.join();
    assert!(client.next_outgoing().is_some());
    assert!(client.next_outgoing().is_none());

    let started = BughouseServerEvent::GameStarted {
        chess_rules: ChessRules::classic_blitz(),
        bughouse_rules: BughouseRules::chess_com(),
        starting_position: EffectiveStartingPosition::Classic,
        players: sample_bughouse_players(),
        time: GAME_START,
        turn_log: Vec::new(),
        scores: Scores { red: 0, blue: 0 },
    };
    assert!(matches!(client.process_server_event(started, 0), Ok(NotableEvent::GameStarted)));
    assert!(matches!(client.contest_state(), ContestState::Game { .. }));

    // An opponent's turn arrives.
    let records = vec![TurnRecord {
        player_name: String::from("Bob"),
        turn_algebraic: String::from("e4"),
        time: GAME_START,
        game_status: BughouseGameStatus::Active,
        scores: Scores { red: 0, blue: 0 },
    }];
    // Bob sits on board A as Black, but it is White's turn: the event is
    // inconsistent and the client reports a divergence.
    assert!(client.process_server_event(BughouseServerEvent::TurnsMade(records), 0).is_err());

    let records = vec![TurnRecord {
        player_name: String::from("Alice"),
        turn_algebraic: String::from("e4"),
        time: GAME_START,
        game_status: BughouseGameStatus::Active,
        scores: Scores { red: 0, blue: 0 },
    }];
    assert!(matches!(
        client.process_server_event(BughouseServerEvent::TurnsMade(records), 0),
        Ok(NotableEvent::NoEvent)
    ));

    let game_over = BughouseServerEvent::GameOver {
        time: GAME_START,
        game_status: BughouseGameStatus::Victory(
            Team::Blue,
            bughouse_chess::board::VictoryReason::Resignation,
        ),
        scores: Scores { red: 0, blue: 1 },
    };
    client.process_server_event(game_over, 0).unwrap();
    match client.contest_state() {
        ContestState::Game { alt_game, scores, .. } => {
            assert!(matches!(alt_game.status(), BughouseGameStatus::Victory(Team::Blue, _)));
            assert_eq!(scores.blue, 1);
        },
        _ => panic!("expected a game in progress"),
    }
}

#[test]
fn text_document_wraps_lines() {
    let mut doc = TextDocument::new();
    doc.push_word("alpha");
    doc.push_word("beta");
    assert_eq!(doc.render(), "alpha beta\n");

    let mut doc = TextDocument::new();
    let long_word = "x".repeat(78);
    doc.push_word(&long_word);
    doc.push_word("tail");
    let rendered = doc.render();
    assert_eq!(rendered, format!("{}\ntail\n", long_word));

    let doc = TextDocument::new();
    assert_eq!(doc.render(), "");
}

#[test]
fn number_rendering() {
    assert_eq!(u64_to_string(0), "0");
    assert_eq!(u64_to_string(42), "42");
    assert_eq!(u64_to_string(18446744073709551615), "18446744073709551615");
}

#[test]
fn bpgn_export_contains_headers_and_turns() {
    let mut game = default_bughouse_game();
    game.try_turn(BughouseBoard::A, &alg("e4"), TurnMode::Normal, GAME_START).unwrap();
    game.try_turn(BughouseBoard::A, &alg("d5"), TurnMode::Normal, GAME_START).unwrap();
    game.try_turn(BughouseBoard::B, &alg("Nf3"), TurnMode::Normal, GAME_START).unwrap();
    let bpgn = export_to_bpgn(BughouseExportFormat {}, &game, 1);
    assert!(bpgn.starts_with("[Event \"Friendly Bughouse Match\"]\n"));
    assert!(bpgn.contains("[Site \"bughouse.pro\"]"));
    assert!(bpgn.contains("[Round \"1\"]"));
    assert!(bpgn.contains("[WhiteA \"Alice\"]"));
    assert!(bpgn.contains("[BlackA \"Bob\"]"));
    assert!(bpgn.contains("[WhiteB \"Charlie\"]"));
    assert!(bpgn.contains("[BlackB \"Dave\"]"));
    assert!(bpgn.contains("[TimeControl \"300\"]"));
    assert!(bpgn.contains("[Variant \"Bughouse\"]"));
    assert!(bpgn.contains("[Result \"*\"]"));
    assert!(bpgn.contains("[Termination \"Unterminated\"]"));
    assert!(bpgn.contains("1A. e2e4"));
    assert!(bpgn.contains("1a. d7d5"));
    assert!(bpgn.contains("1B. Ng1f3"));
    // The date header holds this millennium's wall clock date.
    assert!(bpgn.contains("[UTCDate \"2"));
}

#[test]
fn flag_detection() {
    let mut game = default_bughouse_game();
    game.try_turn(BughouseBoard::A, &alg("e4"), TurnMode::Normal, GAME_START).unwrap();
    // The clock of board A is now ticking for Black; let it run out.
    let late = GameInstant { elapsed_ms: 301_000 };
    game.test_flags(late);
    // Black on A is on the Blue team, so Red wins by flag.
    assert_eq!(
        game.status(),
        BughouseGameStatus::Victory(Team::Red, bughouse_chess::board::VictoryReason::Flag)
    );
}
