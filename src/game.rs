use vstd::prelude::*;
use crate::chess_move::ChessMove;
use crate::piece::PieceColor;
use crate::position::Position;

verus! {

/// The number of moves after which a game between two engines is called off.
pub const MAX_TURNS: usize = 300;

/// A game in progress: the current position and whether it has ended.
#[derive(Debug)]
pub struct Game {
    pub current_position: Position,
    pub checkmated: Option<PieceColor>,
    pub stalemate: bool,
}

/// How a game between two engines ended.
#[derive(Copy, Clone, PartialEq, Eq, Debug, Structural)]
pub enum GameResult {
    WhiteWin,
    BlackWin,
    Stalemate,
    TimedOut,
}

impl Game {
    /// The current position is well formed.
    pub open spec fn wf(&self) -> bool {
        self.current_position@.wf()
    }

    /// A game from the initial position.
    pub fn start() -> (r: Game)
        ensures
            r.wf(),
            r.current_position@ == Position::initial_view(),
            r.checkmated is None,
            !r.stalemate,
    {
        Game { current_position: Position::initial(), checkmated: None, stalemate: false }
    }

    /// A game on an empty board.
    pub fn empty() -> (r: Game)
        ensures
            r.wf(),
            r.current_position@ == Position::empty_view(),
            r.checkmated is None,
            !r.stalemate,
    {
        Game { current_position: Position::empty_board(), checkmated: None, stalemate: false }
    }

    /// Plays `chess_move` when it is legal, and records a checkmate or
    /// stalemate that follows; an illegal move changes nothing.
    pub fn make_move(&mut self, chess_move: &ChessMove)
        requires
            old(self).wf(),
        ensures
            final(self).wf(),
            old(self).current_position@.is_legal(*chess_move) ==> {
                let next = old(self).current_position@.after(*chess_move);
                &&& final(self).current_position@ == next
                &&& final(self).checkmated == if next.checkmate() {
                    Some(next.to_move)
                } else {
                    old(self).checkmated
                }
                &&& final(self).stalemate == next.stalemate()
            },
            !old(self).current_position@.is_legal(*chess_move) ==> final(self).current_position@
                == old(self).current_position@ && final(self).checkmated == old(self).checkmated
                && final(self).stalemate == old(self).stalemate,
    {
        if self.current_position.is_move_legal(chess_move) {
            self.current_position = self.current_position.after_move(chess_move);
            if self.current_position.is_checkmate() {
                self.checkmated = Some(self.current_position.to_move);
            }
            self.stalemate = self.current_position.is_stalemate();
        }
    }

    /// A game from `starting_position`, with its checkmate or stalemate recorded.
    pub fn from_starting_position(starting_position: Position) -> (r: Game)
        requires
            starting_position@.wf(),
        ensures
            r.wf(),
            r.current_position@ == starting_position@,
            r.checkmated == if starting_position@.checkmate() {
                Some(starting_position.to_move)
            } else {
                None
            },
            r.stalemate == starting_position@.stalemate(),
    {
        let checkmated = starting_position.checkmated();
        let stalemate = starting_position.is_stalemate();
        Game { current_position: starting_position, checkmated, stalemate }
    }

    /// How the game has ended after `turns` moves, or `None` while it goes
    /// on: a recorded checkmate wins for the other side, a stalemate draws,
    /// and the game is called off after `MAX_TURNS` moves.
    pub fn outcome(&self, turns: usize) -> (r: Option<GameResult>)
        requires
            self.wf(),
        ensures
            r == match self.checkmated {
                Some(PieceColor::White) => Some(GameResult::BlackWin),
                Some(PieceColor::Black) => Some(GameResult::WhiteWin),
                None => if self.current_position@.stalemate() {
                    Some(GameResult::Stalemate)
                } else if turns >= MAX_TURNS {
                    Some(GameResult::TimedOut)
                } else {
                    None
                },
            },
    {
        match self.checkmated {
            Some(PieceColor::White) => Some(GameResult::BlackWin),
            Some(PieceColor::Black) => Some(GameResult::WhiteWin),
            None => if self.current_position.is_stalemate() {
                Some(GameResult::Stalemate)
            } else if turns >= MAX_TURNS {
                Some(GameResult::TimedOut)
            } else {
                None
            },
        }
    }
}

} // verus!
