use chess_engine::{
    alpha_beta_negamax, basic_evaluation, better_evaluation, minimax, negamax, ChessMove, Coords,
    Evaluation, Game, GameResult, Move, PieceColor, PieceKind, Player, Position,
    RandomCapturePrioPlayer, RandomPlayer, FirstMovePlayer,
};

fn sq(name: &str) -> Coords {
    Coords::from_algebraic(name)
}

fn regular(from: &str, to: &str) -> ChessMove {
    ChessMove::RegularMove(Move { origin: sq(from), destination: sq(to) })
}

#[test]
fn e2e4_decodes_to_a_legal_double_push() {
    let position = Position::initial();
    let m = ChessMove::from_uci_long("e2e4", &position);
    assert_eq!(
        m,
        ChessMove::PawnSkip(Move { origin: Coords { x: 4, y: 6 }, destination: Coords { x: 4, y: 4 } })
    );
    assert!(position.is_move_legal(&m));
}

#[test]
fn pawn_attacks_its_capture_square_and_en_passant_target() {
    let position = Position::from_fen("8/8/8/8/4Pp2/8/8/8 b - e3 0 1");
    assert!(position.is_attacked_by(&PieceColor::Black, &sq("e3")));
    assert!(position.is_attacked_by(&PieceColor::Black, &sq("e4")));
    assert!(!position.is_attacked_by(&PieceColor::Black, &sq("f3")));
}

#[test]
fn complex_checkmate_is_not_stalemate() {
    let position =
        Position::from_fen("r1bqkbnr/2pp1Qpp/ppn5/4p3/2BPP3/8/PPP2PPP/RNB1K1NR b KQkq - 0 1");
    assert!(position.is_checkmate());
    assert!(!position.is_stalemate());
    assert!(position.all_legal_moves().is_empty());
    assert!(position.is_in_check(&PieceColor::Black));
    assert_eq!(position.checkmated(), Some(PieceColor::Black));
}

#[test]
fn stalemate_is_not_checkmate() {
    let position = Position::from_fen("k7/2Q5/1K6/8/8/8/8/8 b - - 0 1");
    assert!(position.is_stalemate());
    assert!(!position.is_checkmate());
    assert!(position.all_legal_moves().is_empty());
    assert_eq!(position.checkmated(), None);
}

#[test]
fn no_legal_move_leaves_own_king_attacked() {
    let fens = [
        "rnbqkbnr/pppppppp/8/8/8/8/PPPPPPPP/RNBQKBNR w KQkq - 0 1",
        "r3k2r/p1ppqpb1/bn2pnp1/3PN3/1p2P3/2N2Q1p/PPPBBPPP/R3K2R w KQkq - 0 1",
        "8/2p5/3p4/KP5r/1R3p1k/8/4P1P1/8 w - - 0 1",
        "4k3/8/8/8/8/8/4r3/4K3 w - - 0 1",
    ];
    for fen in fens {
        let position = Position::from_fen(fen);
        let mover = position.to_move;
        for m in position.all_legal_moves() {
            assert!(!position.after_move(&m).is_in_check(&mover), "{} {:?}", fen, m);
        }
    }
}

#[test]
fn legality_matches_membership_from_origin() {
    let position =
        Position::from_fen("r3k2r/p1ppqpb1/bn2pnp1/3PN3/1p2P3/2N2Q1p/PPPBBPPP/R3K2R w KQkq - 0 1");
    let mut candidates = position.all_possible_moves();
    candidates.push(regular("a1", "a8"));
    candidates.push(ChessMove::CastleLeft);
    candidates.push(ChessMove::CastleRight);
    for m in candidates {
        let origin = match m {
            ChessMove::RegularMove(mv) | ChessMove::PawnSkip(mv) | ChessMove::EnPassant(mv, _)
            | ChessMove::Promotion(mv, _) => mv.origin,
            ChessMove::CastleLeft | ChessMove::CastleRight => sq("e1"),
        };
        assert_eq!(
            position.is_move_legal(&m),
            position.legal_moves_from_origin(&origin).contains(&m)
        );
    }
}

#[test]
fn en_passant_target_lasts_one_ply() {
    let after_push = Position::initial().after_move(&ChessMove::PawnSkip(Move {
        origin: sq("e2"),
        destination: sq("e4"),
    }));
    assert_eq!(after_push.en_passant_on, Some(sq("e3")));
    let after_reply = after_push.after_move(&regular("g8", "f6"));
    assert_eq!(after_reply.en_passant_on, None);
}

#[test]
fn promotion_yields_four_moves_per_square() {
    let position = Position::from_fen("1n6/P7/8/8/8/8/8/8 w - - 0 1");
    let moves = position.legal_moves_from_origin(&sq("a7"));
    assert_eq!(moves.len(), 8);
    for m in &moves {
        assert!(matches!(m, ChessMove::Promotion(_, _)));
    }
    for target in ["a8", "b8"] {
        for kind in [PieceKind::Rook, PieceKind::Knight, PieceKind::Bishop, PieceKind::Queen] {
            let m = ChessMove::Promotion(Move { origin: sq("a7"), destination: sq(target) }, kind);
            assert!(moves.contains(&m));
        }
    }
}

#[test]
fn promotion_places_the_chosen_piece() {
    let position = Position::from_fen("8/P7/8/8/8/8/8/8 w - - 0 1");
    let after = position.after_move(&ChessMove::Promotion(
        Move { origin: sq("a7"), destination: sq("a8") },
        PieceKind::Knight,
    ));
    assert_eq!(after.board[0][0].map(|p| p.kind), Some(PieceKind::Knight));
    assert_eq!(after.board[1][0], None);
}

#[test]
fn cannot_castle_through_an_attacked_square() {
    let position = Position::from_fen("5r2/8/8/8/8/8/8/4K2R w K - 0 1");
    assert!(!position.is_move_legal(&ChessMove::CastleRight));
    let open = Position::from_fen("8/8/8/8/8/8/8/4K2R w K - 0 1");
    assert!(open.is_move_legal(&ChessMove::CastleRight));
}

#[test]
fn cannot_castle_with_blocked_squares_or_without_right() {
    let blocked = Position::from_fen("8/8/8/8/8/8/8/RN2K3 w Q - 0 1");
    assert!(!blocked.is_move_legal(&ChessMove::CastleLeft));
    let no_right = Position::from_fen("8/8/8/8/8/8/8/R3K3 w - - 0 1");
    assert!(!no_right.is_move_legal(&ChessMove::CastleLeft));
    let open = Position::from_fen("8/8/8/8/8/8/8/R3K3 w Q - 0 1");
    assert!(open.is_move_legal(&ChessMove::CastleLeft));
}

#[test]
fn queen_side_castle_relocates_and_clears_rights() {
    let position = Position::from_fen("r3k2r/8/8/8/8/8/8/R3K2R b KQkq - 0 1");
    let after = position.after_move(&ChessMove::CastleLeft);
    assert_eq!(after.board[0][2].map(|p| p.kind), Some(PieceKind::King));
    assert_eq!(after.board[0][3].map(|p| p.kind), Some(PieceKind::Rook));
    assert_eq!(after.board[0][0], None);
    assert_eq!(after.board[0][4], None);
    assert!(!after.black_can_castle_king_side);
    assert!(!after.black_can_castle_queen_side);
    assert!(after.white_can_castle_king_side);
    assert!(after.white_can_castle_queen_side);
}

#[test]
fn capturing_a_rook_on_its_corner_ends_that_right() {
    let position = Position::from_fen("r3k2r/8/8/8/8/8/8/R3K2R w KQkq - 0 1");
    let after = position.after_move(&regular("h1", "h8"));
    assert!(!after.black_can_castle_king_side);
    assert!(after.black_can_castle_queen_side);
    assert!(!after.white_can_castle_king_side);
}

#[test]
fn malformed_records_are_rejected() {
    assert!(Position::parse_fen("8/8/8/8/8/8/8/8 w - - 0").is_none());
    assert!(Position::parse_fen("8/8/8/8/8/8/8/7 w - - 0 1").is_none());
    assert!(Position::parse_fen("8/8/8/8/8/8/8/9 w - - 0 1").is_none());
    assert!(Position::parse_fen("8/8/8/8/8/8/8/8/8 w - - 0 1").is_none());
    assert!(Position::parse_fen("8/8/8/8/8/8/8/7x w - - 0 1").is_none());
    assert!(Position::parse_fen("8/8/8/8/8/8/8/8 x - - 0 1").is_none());
    assert!(Position::parse_fen("8/8/8/8/8/8/8/8 w - e9 0 1").is_none());
    assert!(Position::parse_fen("8/8/8/8/8/8/8/8 w - - 0 1").is_some());
}

#[test]
fn parsed_record_holds_its_fields() {
    let position = Position::parse_fen("4k3/8/8/3pP3/8/8/8/4K2R w Kq d6 0 1").unwrap();
    assert_eq!(position.to_move, PieceColor::White);
    assert!(position.white_can_castle_king_side);
    assert!(!position.white_can_castle_queen_side);
    assert!(position.black_can_castle_queen_side);
    assert!(!position.black_can_castle_king_side);
    assert_eq!(position.en_passant_on, Some(Coords { x: 3, y: 2 }));
    assert_eq!(position.piece_count(PieceColor::White), 3);
    assert_eq!(position.piece_count(PieceColor::Black), 2);
}

#[test]
fn exact_evaluations() {
    let white = Position::from_fen("8/8/8/8/8/8/8/4K2R w K - 0 1");
    assert_eq!(basic_evaluation(&white), 100);
    assert_eq!(better_evaluation(&white), 10530);
    let black = Position::from_fen("8/8/8/8/8/8/8/4K2R b K - 0 1");
    assert_eq!(basic_evaluation(&black), -100);
}

#[test]
fn exact_search_scores() {
    let position = Position::from_fen("8/8/8/8/8/8/8/4K2R w K - 0 1");
    assert_eq!(negamax(&position, 0, Evaluation::Basic), 100);
    assert_eq!(negamax(&position, 1, Evaluation::Basic), 100);
    assert_eq!(
        alpha_beta_negamax(&position, 1, Evaluation::Basic, isize::MIN + 1, isize::MAX - 1),
        100
    );
    assert_eq!(minimax(&position, 1, true, Evaluation::Basic), -50);
}

#[test]
fn random_players_offer_legal_moves() {
    let position = Position::initial();
    for _ in 0..5 {
        let m = RandomPlayer.offer_move(&position);
        assert!(position.is_move_legal(&m));
    }
    let with_capture = Position::from_fen("4k3/8/8/3p4/4P3/8/8/4K3 w - - 0 1");
    for _ in 0..5 {
        let m = RandomCapturePrioPlayer.offer_move(&with_capture);
        assert_eq!(m, regular("e4", "d5"));
    }
    assert_eq!(FirstMovePlayer.offer_move(&position), regular("a2", "a3"));
}

#[test]
fn scholars_mate_outcome_is_a_white_win() {
    let mut game = Game::start();
    for text in ["e2e4", "e7e5", "d1h5", "b8c6", "f1c4", "g8f6", "h5f7"] {
        let m = ChessMove::from_uci_long(text, &game.current_position);
        game.make_move(&m);
    }
    assert_eq!(game.outcome(7), Some(GameResult::WhiteWin));
    assert_eq!(Game::start().outcome(0), None);
    assert_eq!(Game::start().outcome(300), Some(GameResult::TimedOut));
}

#[test]
fn castling_is_written_with_king_squares() {
    let position = Position::initial();
    assert_eq!(ChessMove::CastleRight.to_uci_long(&position), "e1g1");
    assert_eq!(ChessMove::CastleLeft.to_uci_long(&position), "e1c1");
    assert_eq!(
        ChessMove::from_uci_long("a7a8n", &position),
        ChessMove::Promotion(Move { origin: sq("a7"), destination: sq("a8") }, PieceKind::Knight)
    );
}

#[test]
fn illegal_move_leaves_game_unchanged() {
    let mut game = Game::start();
    game.make_move(&regular("e2", "e5"));
    assert_eq!(game.current_position, Position::initial());
}

#[test]
fn move_text_round_trips_for_legal_moves() {
    let fens = [
        "r3k2r/p1ppqpb1/bn2pnp1/3PN3/1p2P3/2N2Q1p/PPPBBPPP/R3K2R w KQkq - 0 1",
        "r3k2r/p1ppqpb1/bn2pnp1/3PN3/1p2P3/2N2Q1p/PPPBBPPP/R3K2R b KQkq - 0 1",
        "1n5k/P7/8/3pP3/8/8/8/4K3 w - d6 0 1",
    ];
    for fen in fens {
        let position = Position::from_fen(fen);
        for m in position.all_legal_moves() {
            let text = m.to_uci_long(&position);
            assert_eq!(ChessMove::from_uci_long(&text, &position), m, "{} {}", fen, text);
        }
    }
}

#[test]
fn en_passant_text_by_side_to_move_takes_pawn_behind_target() {
    let position = Position::from_fen("4k3/8/8/3pP3/8/8/8/4K3 w - d6 0 1");
    assert_eq!(
        ChessMove::from_uci_long("e5d6", &position),
        ChessMove::EnPassant(Move { origin: sq("e5"), destination: sq("d6") }, sq("d5"))
    );
}

#[test]
fn promotion_text_carries_its_letter() {
    let position = Position::from_fen("8/P7/8/8/8/8/8/8 w - - 0 1");
    let m = ChessMove::Promotion(Move { origin: sq("a7"), destination: sq("a8") }, PieceKind::Rook);
    assert_eq!(m.to_uci_long(&position), "a7a8r");
    let castle = Position::from_fen("r3k2r/8/8/8/8/8/8/8 b kq - 0 1");
    assert_eq!(ChessMove::from_uci_long("e8c8", &castle), ChessMove::CastleLeft);
    assert_eq!(ChessMove::from_uci_long("e8g8", &castle), ChessMove::CastleRight);
}

#[test]
fn en_passant_text_takes_pawn_directly_behind_target() {
    let position = Position::from_fen("7k/3P4/8/8/8/8/8/7K w - e6 0 1");
    assert_eq!(
        ChessMove::from_uci_long("d7e6", &position),
        ChessMove::EnPassant(Move { origin: sq("d7"), destination: sq("e6") }, sq("e5"))
    );
}

#[test]
fn en_passant_target_off_the_passing_rank_is_ignored() {
    let position = Position::from_fen("8/1P6/8/8/8/8/8/7K w - a8 0 1");
    let moves = position.legal_moves_from_origin(&sq("b7"));
    assert_eq!(moves.len(), 4);
    for m in &moves {
        assert!(matches!(m, ChessMove::Promotion(_, _)));
    }
}

#[test]
fn castling_checks_the_king_on_its_home_square() {
    let position = Position::from_fen("K7/8/8/4r3/8/8/8/4K2R w K - 0 1");
    assert!(!position.is_move_legal(&ChessMove::CastleRight));
    let landing_attacked = Position::from_fen("6r1/8/8/8/8/8/8/4K2R w K - 0 1");
    assert!(!landing_attacked.is_move_legal(&ChessMove::CastleRight));
}
