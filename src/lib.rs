//! A chess rules and search engine: legal move generation, check, checkmate
//! and stalemate detection, and negamax search with alpha-beta pruning, each
//! stated against a model of the rules and proved.

mod attack;
mod board;
mod board_manip;
mod bounds;
mod chess_move;
mod coords;
mod engine;
mod fen;
mod game;
pub mod laws;
mod movegen;
mod piece;
mod player;
mod players;
mod position;
mod rules;
mod text;
mod uci_long;

pub use crate::board::{bit_at_nth, Board};
pub use crate::board_manip::{copy_board, king_at, move_piece, pawn_at, piece_at, put_piece_at, take_piece_at};
pub use crate::chess_move::{ChessMove, Move};
pub use crate::coords::{all_squares, cards, eight_degrees, inter_cards, Coords, Direction};
pub use crate::engine::{
    alpha_beta_negamax, basic_evaluation, better_evaluation, first_move_with_max_evaluation,
    first_move_with_min_evaluation, minimax, moves_with_evaluation, negamax, planner_evaluation,
    Evaluation, EVAL_BOUND,
};
pub use crate::fen::parse_placement;
pub use crate::game::{Game, GameResult, MAX_TURNS};
pub use crate::piece::{Piece, PieceColor, PieceKind};
pub use crate::player::Player;
pub use crate::players::{
    BasicEvaluationPlayer, BetterEvaluationPlayer, FirstMovePlayer, Planner,
    RandomCapturePrioPlayer, RandomPlayer,
};
pub use crate::position::Position;
pub use crate::rules::PositionView;
pub use crate::text::chars_of;
