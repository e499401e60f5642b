use vstd::prelude::*;
use crate::coords::Coords;
use crate::piece::PieceKind;

verus! {

/// A move: one of the six shapes a chess move can take.
#[derive(Copy, Clone, PartialEq, Eq, Debug, Hash, Structural)]
pub enum ChessMove {
    /// A piece goes from one square to another, capturing what stands there.
    RegularMove(Move),
    /// A pawn advances two squares from its starting rank.
    PawnSkip(Move),
    /// Castling on the queen's side: the king goes to file c.
    CastleLeft,
    /// Castling on the king's side: the king goes to file g.
    CastleRight,
    /// An en-passant capture, with the square of the captured pawn.
    EnPassant(Move, Coords),
    /// A pawn reaches the last rank and becomes a piece of the given kind.
    Promotion(Move, PieceKind),
}

/// The squares a piece leaves and reaches.
#[derive(Copy, Clone, PartialEq, Eq, Debug, Hash, Structural)]
pub struct Move {
    pub origin: Coords,
    pub destination: Coords,
}

impl Move {
    /// How many files the move goes left.
    pub fn x_distance(&self) -> (r: isize)
        requires
            isize::MIN <= self.origin.x - self.destination.x <= isize::MAX,
        ensures
            r == self.origin.x - self.destination.x,
    {
        self.origin.x - self.destination.x
    }

    /// How many ranks the move spans.
    pub fn y_abs_distance(&self) -> (r: usize)
        ensures
            r as int == if self.origin.y >= self.destination.y {
                self.origin.y - self.destination.y
            } else {
                self.destination.y - self.origin.y
            },
    {
        if self.origin.y >= self.destination.y {
            (self.origin.y as i128 - self.destination.y as i128) as usize
        } else {
            (self.destination.y as i128 - self.origin.y as i128) as usize
        }
    }

    /// How many files the move spans.
    pub fn x_abs_distance(&self) -> (r: usize)
        ensures
            r as int == if self.origin.x >= self.destination.x {
                self.origin.x - self.destination.x
            } else {
                self.destination.x - self.origin.x
            },
    {
        if self.origin.x >= self.destination.x {
            (self.origin.x as i128 - self.destination.x as i128) as usize
        } else {
            (self.destination.x as i128 - self.origin.x as i128) as usize
        }
    }
}

} // verus!
