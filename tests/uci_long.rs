use chess_engine::{ChessMove, Coords, Move, PieceKind, Position};

#[test]
fn deserializes_e2_e4() {
    assert_eq!(
        ChessMove::from_uci_long("e2e4", &Position::initial()),
        ChessMove::PawnSkip(Move {
            origin: Coords { x: 4, y: 6 },
            destination: Coords { x: 4, y: 4 }
        })
    )
}

#[test]
fn deserializes_promotion() {
    assert_eq!(
        ChessMove::from_uci_long("h7h8q", &Position::from_fen("8/7P/8/8/8/8/8/8 w - - 0 1")),
        ChessMove::Promotion(
            Move {
                origin: Coords { x: 7, y: 1 },
                destination: Coords { x: 7, y: 0 }
            },
            PieceKind::Queen
        )
    )
}

#[test]
fn deserializes_en_passant() {
    assert_eq!(
        ChessMove::from_uci_long("e4d3", &Position::from_fen("8/8/8/8/3Pp3/8/8/8 w - d3 0 1")),
        ChessMove::EnPassant(
            Move {
                origin: Coords::from_algebraic("e4"),
                destination: Coords::from_algebraic("d3")
            },
            Coords::from_algebraic("d4")
        )
    )
}

#[test]
fn deserializes_castle_right() {
    assert_eq!(
        ChessMove::from_uci_long(
            "e1c1",
            &Position::from_fen("rnbqkbnr/pppppppp/8/8/8/8/PPPPPPPP/R3KBNR w KQkq - 0 1")
        ),
        ChessMove::CastleLeft
    )
}

#[test]
fn deserializes_castle_left() {
    assert_eq!(
        ChessMove::from_uci_long(
            "e1g1",
            &Position::from_fen("rnbqkbnr/pppppppp/8/8/8/8/PPPPPPPP/RNBQK2R w KQkq - 0 1")
        ),
        ChessMove::CastleRight
    )
}

#[test]
fn deserializes_knight_to_c3() {
    assert_eq!(
        ChessMove::from_uci_long("b1c3", &Position::initial()),
        ChessMove::RegularMove(Move {
            origin: Coords::from_algebraic("b1"),
            destination: Coords::from_algebraic("c3")
        })
    )
}

#[test]
fn serializes_e4() {
    assert_eq!(
        ChessMove::PawnSkip(Move {
            origin: Coords::from_algebraic("e2"),
            destination: Coords::from_algebraic("e4")
        })
        .to_uci_long(&Position::initial()),
        "e2e4"
    )
}

#[test]
fn serializes_e5() {
    assert_eq!(
        ChessMove::PawnSkip(Move {
            origin: Coords::from_algebraic("e7"),
            destination: Coords::from_algebraic("e5")
        })
        .to_uci_long(&Position::initial()),
        "e7e5"
    )
}
