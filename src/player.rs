use vstd::prelude::*;
use crate::chess_move::ChessMove;
use crate::position::Position;

verus! {

/// A strategy that supplies moves in a game.
pub trait Player {
    /// A legal move for the side to move.
    fn offer_move(&self, position: &Position) -> (r: ChessMove)
        requires
            position@.wf(),
            position@.all_legal().len() > 0,
        ensures
            position@.all_legal().contains(r),
    ;

    /// A short name of this strategy, for display.
    fn name(&self) -> (r: String);

    /// This strategy's score of `position` for the side to move.
    fn evalutate(&self, position: &Position) -> (r: isize)
        requires
            position@.wf(),
    ;
}

} // verus!
