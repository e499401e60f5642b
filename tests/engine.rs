use chess_engine::{BetterEvaluationPlayer, ChessMove, Coords, Move, Planner, Player, Position};

#[test]
fn better_evaluation_finds_king_rook_fork() {
    let position =
        Position::from_fen("rnb1kbnr/pppppppp/8/1N6/8/8/PPPPPPPP/R1BQKBNR w KQkq - 0 1");
    assert_eq!(
        BetterEvaluationPlayer {}.offer_move(&position),
        ChessMove::RegularMove(Move {
            origin: Coords { x: 1, y: 3 },
            destination: Coords { x: 2, y: 1 }
        })
    );
}

#[test]
fn better_evaluation_doesnt_sac_knight_after_fork() {
    let position =
        Position::from_fen("Nnbk1bnr/pp1p1ppp/8/4p3/8/8/PPPPPPPP/R1BQKBNR w KQka - 0 1");
    assert_ne!(
        BetterEvaluationPlayer {}.offer_move(&position),
        ChessMove::RegularMove(Move {
            origin: Coords { x: 0, y: 0 },
            destination: Coords { x: 2, y: 1 }
        })
    );
}

#[test]
fn planner_doesnt_sac_knight_after_fork() {
    let position =
        Position::from_fen("Nnbk1bnr/pp1p1ppp/8/4p3/8/8/PPPPPPPP/R1BQKBNR w KQka - 0 1");
    assert_ne!(
        Planner {}.offer_move(&position),
        ChessMove::RegularMove(Move {
            origin: Coords { x: 0, y: 0 },
            destination: Coords { x: 2, y: 1 }
        })
    );
}

#[test]
fn planner_finds_king_rook_fork() {
    let position =
        Position::from_fen("rnb1kbnr/pppppppp/8/1N6/8/8/PPPPPPPP/R1BQKBNR w KQkq - 0 1");
    assert_eq!(
        Planner {}.offer_move(&position),
        ChessMove::RegularMove(Move {
            origin: Coords { x: 1, y: 3 },
            destination: Coords { x: 2, y: 1 }
        })
    );
}
