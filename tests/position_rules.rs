use chess_engine::{piece_at, ChessMove, Coords, Move, Piece, PieceColor, PieceKind, Position};

#[test]
fn initial_position_from_fen() {
    assert_eq!(
        Position::initial(),
        Position::from_fen("rnbqkbnr/pppppppp/8/8/8/8/PPPPPPPP/RNBQKBNR w KQkq - 0 1")
    );
}

#[test]
fn finds_complex_checkmate() {
    assert!(Position::from_fen(
        "r1bqkbnr/2pp1Qpp/ppn5/4p3/2BPP3/8/PPP2PPP/RNB1K1NR b KQkq - 0 1"
    )
    .is_checkmate());
}

#[test]
fn execute_move_into_check() {
    let mut position = Position::empty_board();

    position.board[0][0] = Some(Piece {
        kind: PieceKind::King,
        color: PieceColor::White,
    });
    position.board[2][2] = Some(Piece {
        kind: PieceKind::Knight,
        color: PieceColor::Black,
    });
    let king_location = Coords { y: 0, x: 0 };
    let king_destination = Coords { y: 0, x: 1 };

    let new_position = position.after_move(&ChessMove::RegularMove(Move {
        origin: king_location,
        destination: king_destination,
    }));
    assert!(new_position.king_location(&PieceColor::White) == Some(king_destination.clone()));
    assert!(new_position.is_attacked_by(&PieceColor::Black, &king_destination,));
    assert!(new_position.is_in_check(&PieceColor::White));
}

#[test]
fn detects_check() {
    let mut position = Position::empty_board();

    position.board[0][1] = Some(Piece {
        kind: PieceKind::King,
        color: PieceColor::White,
    });
    position.board[2][2] = Some(Piece {
        kind: PieceKind::Knight,
        color: PieceColor::Black,
    });
    assert!(position.is_in_check(&PieceColor::White));
}

#[test]
fn detects_move_into_check() {
    let mut position = Position::empty_board();

    position.board[0][0] = Some(Piece {
        kind: PieceKind::King,
        color: PieceColor::White,
    });
    position.board[2][2] = Some(Piece {
        kind: PieceKind::Knight,
        color: PieceColor::Black,
    });
    let king_location = Coords { y: 0, x: 0 };
    assert!(position.opens_own_king(&ChessMove::RegularMove(Move {
        origin: king_location,
        destination: Coords { y: 0, x: 1 },
    }),));
}

#[test]
fn detects_knight_attack() {
    let position = Position::from_fen("8/8/8/8/8/1n6/8/K7 b - - 0 1");
    let king_location = Coords { y: 7, x: 0 };
    assert!(position.is_attacked_by(&PieceColor::Black, &king_location));
}

#[test]
fn detects_pawn_attack() {
    let position = Position::from_fen("8/8/8/4p3/3K4/8/8/8 w - - 0 1");
    let king_location = Coords { y: 4, x: 3 };
    assert!(position.is_attacked_by(&PieceColor::Black, &king_location));
}

#[test]
fn en_passant_attack_requires_pawn_present() {
    let position = Position::from_fen("8/8/8/8/4P3/8/8/8 b - e3 0 1");
    let pawn_location = Coords { y: 4, x: 4 };
    assert!(!position.is_attacked_by(&PieceColor::Black, &pawn_location));
}

#[test]
fn detects_en_passant_attack() {
    let position = Position::from_fen("8/8/8/8/4Pp2/8/8/8 b - e3 0 1");
    let pawn_location = Coords { y: 4, x: 4 };
    assert!(position.is_attacked_by(&PieceColor::Black, &pawn_location));
}

#[test]
fn detects_bishop_attack() {
    let position = Position::from_fen("8/7b/8/8/8/8/2K5/8 w - - 0 1");
    let king_location = Coords { y: 6, x: 2 };
    assert!(position.is_attacked_by(&PieceColor::Black, &king_location));
}

#[test]
fn detects_diagonal_queen_attack() {
    let position = Position::from_fen("8/7q/8/8/8/8/2K5/8 w - - 0 1");
    let king_location = Coords { y: 6, x: 2 };
    assert!(position.is_attacked_by(&PieceColor::Black, &king_location));
}

#[test]
fn detects_rook_attack() {
    let position = Position::from_fen("2r5/8/8/8/8/8/2K5/8 w - - 0 1");
    let king_location = Coords { y: 6, x: 2 };
    assert!(position.is_attacked_by(&PieceColor::Black, &king_location));
}

#[test]
fn detects_cardinal_queen_attack() {
    let position = Position::from_fen("2q5/8/8/8/8/8/2K5/8 w - - 0 1");
    let king_location = Coords { y: 6, x: 2 };
    assert!(position.is_attacked_by(&PieceColor::Black, &king_location));
}

#[test]
fn detects_cardinal_king_attack() {
    let position = Position::from_fen("8/8/8/8/8/2k5/2K5/8 w - - 0 1");
    let white_king_location = Coords { y: 6, x: 2 };
    assert!(position.is_attacked_by(&PieceColor::Black, &white_king_location));
}

#[test]
fn detects_diagonal_king_attack() {
    let position = Position::from_fen("8/8/8/8/8/3k4/2K5/8 w - - 0 1");
    let white_king_location = Coords { y: 6, x: 2 };
    assert!(position.is_attacked_by(&PieceColor::Black, &white_king_location));
}

#[test]
fn promotion_is_an_attack() {
    let position = Position::from_fen("8/8/8/8/8/8/1p6/K7 w - - 0 1");
    let king_location = Coords { y: 7, x: 0 };
    position
        .color_to_move(PieceColor::Black)
        .all_possible_moves()
        .iter()
        .for_each(|chess_move| match chess_move {
            ChessMove::Promotion(_, _) => (),
            _ => panic!("only promotions in this position, found {:?}", chess_move),
        });
    assert!(position.is_attacked_by(&PieceColor::Black, &king_location,));
}

#[test]
fn no_en_passant_from_accross_the_board() {
    let mut position = Position::empty_board();
    position.board[1][4] = Some(Piece {
        kind: PieceKind::Pawn,
        color: PieceColor::White,
    });
    position.board[7][2] = Some(Piece {
        kind: PieceKind::Pawn,
        color: PieceColor::Black,
    });
    let after_skip = position.after_move(&ChessMove::PawnSkip(Move {
        origin: Coords { y: 1, x: 4 },
        destination: Coords { y: 3, x: 4 },
    }));

    assert!(after_skip.en_passant_on == Some(Coords { y: 2, x: 4 }));
    assert!(!after_skip.is_move_legal(&ChessMove::EnPassant(
        Move {
            origin: Coords { y: 7, x: 2 },
            destination: Coords { y: 2, x: 4 }
        },
        Coords { y: 3, x: 4 }
    ),))
}

#[test]
fn en_passant_left() {
    let position = Position::from_fen("8/8/8/8/2p5/8/1P6/8 w - - 0 1");
    let after_skip = position.after_move(&ChessMove::PawnSkip(Move {
        origin: Coords { y: 6, x: 1 },
        destination: Coords { y: 4, x: 1 },
    }));
    let black_pawn_location = Coords { y: 4, x: 2 };
    let ep = ChessMove::EnPassant(
        Move {
            origin: black_pawn_location,
            destination: Coords { y: 5, x: 1 },
        },
        Coords { y: 4, x: 1 },
    );
    assert_eq!(after_skip.en_passant_on, Some(Coords { y: 5, x: 1 }));
    assert!(after_skip
        .legal_moves_from_origin(&black_pawn_location)
        .contains(&ep));
    assert!(after_skip.is_move_legal(&ep))
}

#[test]
fn en_passant_right() {
    let position = Position::from_fen("8/8/8/8/p7/8/1P6/8 w - - 0 1");
    let after_skip = position.after_move(&ChessMove::PawnSkip(Move {
        origin: Coords { y: 6, x: 1 },
        destination: Coords { y: 4, x: 1 },
    }));
    let black_pawn_location = Coords { y: 4, x: 0 };
    let ep = ChessMove::EnPassant(
        Move {
            origin: black_pawn_location,
            destination: Coords { y: 5, x: 1 },
        },
        Coords { y: 4, x: 1 },
    );
    assert!(after_skip.en_passant_on == Some(Coords { y: 5, x: 1 }));
    assert!(after_skip
        .legal_moves_from_origin(&black_pawn_location)
        .contains(&ep));
    assert!(after_skip.is_move_legal(&ep))
}

#[test]
fn finds_king() {
    let mut position = Position::empty_board();

    position.board[0][0] = Some(Piece {
        kind: PieceKind::King,
        color: PieceColor::White,
    });
    assert_eq!(
        position.king_location(&PieceColor::White).unwrap(),
        Coords { x: 0, y: 0 }
    )
}

#[test]
fn cant_castle_after_moving_king() {
    let position = Position::from_fen("8/8/8/8/8/8/8/R3K2R w KQ - 0 1");
    let king_initial_location = Coords { y: 7, x: 4 };
    let one_above = Coords { y: 6, x: 4 };

    let after_move_up = position.after_move(&ChessMove::RegularMove(Move {
        origin: king_initial_location,
        destination: one_above,
    }));

    assert!(!after_move_up.white_can_castle_king_side);
    assert!(!after_move_up.white_can_castle_queen_side);
    assert!(!after_move_up.is_move_legal(&ChessMove::CastleLeft));
    assert!(!after_move_up.is_move_legal(&ChessMove::CastleRight));

    let after_move_back = after_move_up.after_move(&ChessMove::RegularMove(Move {
        origin: one_above,
        destination: king_initial_location,
    }));

    assert!(!after_move_back.black_can_castle_king_side);
    assert!(!after_move_back.black_can_castle_queen_side);
    assert!(!after_move_back.is_move_legal(&ChessMove::CastleLeft));
    assert!(!after_move_back.is_move_legal(&ChessMove::CastleRight));
}

#[test]
fn cannot_castle_after_moving_rook() {
    let position = Position::from_fen("8/8/8/8/8/8/8/R3K2R w KQ - 0 1");
    let left_rook_initial_location = Coords { y: 7, x: 0 };
    let left_rook_up_one = Coords { y: 6, x: 0 };
    let right_rook_initial_location = Coords { y: 7, x: 7 };
    let right_rook_up_one = Coords { y: 6, x: 7 };

    let moved_left_rook_up_one = position
        .after_move(&ChessMove::RegularMove(Move {
            origin: left_rook_initial_location,
            destination: left_rook_up_one,
        }))
        .color_to_move(PieceColor::White);

    assert!(!moved_left_rook_up_one.white_can_castle_queen_side);
    assert!(moved_left_rook_up_one.white_can_castle_king_side);

    assert!(!moved_left_rook_up_one.is_move_legal(&ChessMove::CastleLeft));
    assert!(piece_at(
        &moved_left_rook_up_one.board,
        &Coords {
            y: PieceColor::White.homerow(),
            x: 5
        }
    )
    .is_none());
    assert!(piece_at(
        &moved_left_rook_up_one.board,
        &Coords {
            y: PieceColor::White.homerow(),
            x: 6
        }
    )
    .is_none());
    assert!(piece_at(
        &moved_left_rook_up_one.board,
        &Coords {
            y: PieceColor::White.homerow(),
            x: 4
        }
    )
    .is_some_and(|piece| {
        piece
            == Piece {
                kind: PieceKind::King,
                color: PieceColor::White,
            }
    }));
    assert!(piece_at(
        &moved_left_rook_up_one.board,
        &Coords {
            y: PieceColor::White.homerow(),
            x: 7
        }
    )
    .is_some_and(|piece| {
        piece
            == Piece {
                kind: PieceKind::Rook,
                color: PieceColor::White,
            }
    }));
    assert!(moved_left_rook_up_one.can_castle_king_side(&PieceColor::White));
    assert!(moved_left_rook_up_one
        .all_legal_moves()
        .contains(&ChessMove::CastleRight));
    assert!(moved_left_rook_up_one.is_move_legal(&ChessMove::CastleRight));

    let moved_right_rook_up_one = moved_left_rook_up_one
        .after_move(&ChessMove::RegularMove(Move {
            origin: right_rook_initial_location,
            destination: right_rook_up_one,
        }))
        .color_to_move(PieceColor::White);

    assert!(!moved_right_rook_up_one.white_can_castle_king_side);
    assert!(!moved_right_rook_up_one.is_move_legal(&ChessMove::CastleRight));

    let moved_rooks_back = moved_right_rook_up_one
        .after_move(&ChessMove::RegularMove(Move {
            origin: left_rook_up_one,
            destination: left_rook_initial_location,
        }))
        .after_move(&ChessMove::RegularMove(Move {
            origin: right_rook_up_one,
            destination: right_rook_initial_location,
        }));

    assert!(!moved_rooks_back.white_can_castle_king_side);
    assert!(!moved_rooks_back.white_can_castle_queen_side);
    assert!(!moved_rooks_back.is_move_legal(&ChessMove::CastleRight));
    assert!(!moved_rooks_back.is_move_legal(&ChessMove::CastleLeft));
}

#[test]
fn detects_stalemate() {
    let mut position = Position::empty_board();
    position.board[0][0] = Some(Piece {
        kind: PieceKind::King,
        color: PieceColor::White,
    });
    position.board[2][1] = Some(Piece {
        kind: PieceKind::Rook,
        color: PieceColor::Black,
    });
    position.board[1][2] = Some(Piece {
        kind: PieceKind::Rook,
        color: PieceColor::Black,
    });

    assert!(position.is_stalemate());
}

#[test]
fn cannot_castle_queenside_while_in_check() {
    let position = Position::from_fen("8/8/8/8/8/8/2n5/R3K3 w Q - 0 1");
    assert!(!position.is_move_legal(&ChessMove::CastleLeft));
}
#[test]
fn cannot_castle_kingside_while_in_check() {
    let position = Position::from_fen("8/8/8/8/8/8/2n5/4K2R w K - 0 1");
    assert!(!position.is_move_legal(&ChessMove::CastleRight));
}
