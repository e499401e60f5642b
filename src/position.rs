use vstd::prelude::*;
use crate::board_manip::{copy_board, move_piece, put_piece_at, take_piece_at};
use crate::chess_move::ChessMove;
use crate::coords::{sq, Coords};
use crate::piece::{initial_piece, Piece, PieceColor};
use crate::rules::{grid_of, grid_wf, move_in_bounds, PositionView};

verus! {

/// The state of a game: the board, the side to move, the castling rights and
/// the en-passant target.
#[derive(Clone, Debug, PartialEq)]
pub struct Position {
    pub board: Vec<Vec<Option<Piece>>>,
    pub to_move: PieceColor,
    pub white_can_castle_queen_side: bool,
    pub white_can_castle_king_side: bool,
    pub black_can_castle_queen_side: bool,
    pub black_can_castle_king_side: bool,
    pub en_passant_on: Option<Coords>,
}

impl View for Position {
    type V = PositionView;

    open spec fn view(&self) -> PositionView {
        PositionView {
            board: grid_of(self.board),
            to_move: self.to_move,
            white_queen_side: self.white_can_castle_queen_side,
            white_king_side: self.white_can_castle_king_side,
            black_queen_side: self.black_can_castle_queen_side,
            black_king_side: self.black_can_castle_king_side,
            en_passant_on: self.en_passant_on,
        }
    }
}

/// The number of squares among the first `k`, in rank-major order, that hold a piece of `color`.
pub open spec fn count_upto(p: PositionView, color: PieceColor, k: int) -> int
    decreases k,
{
    if k <= 0 {
        0
    } else {
        count_upto(p, color, k - 1) + if p.at(crate::coords::square_of_index(k - 1)) matches Some(
            q,
        ) && q.color == color {
            1int
        } else {
            0
        }
    }
}

/// Builds an 8 by 8 board whose square `(x, y)` holds `initial_piece(8y + x)`
/// when `filled`, and nothing otherwise.
fn board_of(filled: bool) -> (r: Vec<Vec<Option<Piece>>>)
    ensures
        grid_wf(grid_of(r)),
        forall|x: int, y: int|
            0 <= x < 8 && 0 <= y < 8 ==> #[trigger] grid_of(r)[y][x] == if filled {
                initial_piece(y * 8 + x)
            } else {
                None
            },
{
    let mut board: Vec<Vec<Option<Piece>>> = Vec::new();
    let mut i: usize = 0;
    while i < 8
        invariant
            i <= 8,
            board@.len() == i,
            forall|k: int| 0 <= k < i ==> (#[trigger] board@[k])@.len() == 8,
            forall|x: int, y: int|
                0 <= x < 8 && 0 <= y < i ==> #[trigger] board@[y]@[x] == if filled {
                    initial_piece(y * 8 + x)
                } else {
                    None
                },
        decreases 8 - i,
    {
        let mut row: Vec<Option<Piece>> = Vec::new();
        let mut j: usize = 0;
        while j < 8
            invariant
                i < 8,
                j <= 8,
                row@.len() == j,
                forall|x: int|
                    0 <= x < j ==> #[trigger] row@[x] == if filled {
                        initial_piece(i * 8 + x)
                    } else {
                        None
                    },
            decreases 8 - j,
        {
            if filled {
                row.push(Piece::from_initial_position(i * 8 + j));
            } else {
                row.push(None);
            }
            j = j + 1;
        }
        board.push(row);
        i = i + 1;
    }
    assert forall|x: int, y: int| 0 <= x < 8 && 0 <= y < 8 implies #[trigger] grid_of(board)[y][x]
        == if filled {
        initial_piece(y * 8 + x)
    } else {
        None
    } by {
        assert(grid_of(board)[y] == board@[y]@);
    }
    assert forall|k: int| 0 <= k < 8 implies (#[trigger] grid_of(board)[k]).len() == 8 by {
        assert(grid_of(board)[k] == board@[k]@);
    }
    board
}

impl Position {
    /// The initial position: the pieces on their home squares, white to move,
    /// every castling right, no en-passant target.
    pub open spec fn initial_view() -> PositionView {
        PositionView {
            board: Seq::new(8, |y: int| Seq::new(8, |x: int| initial_piece(y * 8 + x))),
            to_move: PieceColor::White,
            white_queen_side: true,
            white_king_side: true,
            black_queen_side: true,
            black_king_side: true,
            en_passant_on: None,
        }
    }

    /// The empty board, white to move, every castling right, no en-passant target.
    pub open spec fn empty_view() -> PositionView {
        PositionView {
            board: Seq::new(8, |y: int| Seq::new(8, |x: int| None)),
            ..Position::initial_view()
        }
    }

    /// The position on the board is well formed: eight rows of eight squares,
    /// and an en-passant target on the board.
    pub open spec fn wf(&self) -> bool {
        self@.wf()
    }

    /// The position a game starts from.
    pub fn initial() -> (r: Position)
        ensures
            r@.wf(),
            r@ == Position::initial_view(),
            forall|x: int, y: int|
                0 <= x < 8 && 0 <= y < 8 ==> #[trigger] r@.at(sq(x, y)) == initial_piece(y * 8 + x),
            r.to_move == PieceColor::White,
            r.white_can_castle_king_side && r.white_can_castle_queen_side,
            r.black_can_castle_king_side && r.black_can_castle_queen_side,
            r.en_passant_on is None,
    {
        let board = board_of(true);
        assert(grid_of(board) =~~= Position::initial_view().board);
        Position {
            board,
            to_move: PieceColor::White,
            white_can_castle_king_side: true,
            white_can_castle_queen_side: true,
            black_can_castle_king_side: true,
            black_can_castle_queen_side: true,
            en_passant_on: None,
        }
    }

    /// A board with no pieces, white to move, every castling right set.
    pub fn empty_board() -> (r: Position)
        ensures
            r@.wf(),
            r@ == Position::empty_view(),
            forall|x: int, y: int| 0 <= x < 8 && 0 <= y < 8 ==> #[trigger] r@.at(sq(x, y)) is None,
            r.to_move == PieceColor::White,
            r.white_can_castle_king_side && r.white_can_castle_queen_side,
            r.black_can_castle_king_side && r.black_can_castle_queen_side,
            r.en_passant_on is None,
    {
        let board = board_of(false);
        assert(grid_of(board) =~~= Position::empty_view().board);
        Position {
            board,
            to_move: PieceColor::White,
            white_can_castle_king_side: true,
            white_can_castle_queen_side: true,
            black_can_castle_king_side: true,
            black_can_castle_queen_side: true,
            en_passant_on: None,
        }
    }

    /// The same position with `color` to move.
    pub fn color_to_move(&self, color: PieceColor) -> (r: Position)
        ensures
            r@ == (PositionView { to_move: color, ..self@ }),
    {
        Position {
            board: copy_board(&self.board),
            to_move: color,
            white_can_castle_queen_side: self.white_can_castle_queen_side,
            white_can_castle_king_side: self.white_can_castle_king_side,
            black_can_castle_queen_side: self.black_can_castle_queen_side,
            black_can_castle_king_side: self.black_can_castle_king_side,
            en_passant_on: self.en_passant_on,
        }
    }

    /// The same position with the other side to move.
    pub fn opposite_color_to_move(&self) -> (r: Position)
        ensures
            r@ == (PositionView { to_move: self.to_move.other(), ..self@ }),
    {
        self.color_to_move(self.to_move.opposite())
    }

    /// Whether `color` keeps its right to castle on the queen's side.
    pub fn can_castle_queen_side(&self, color: &PieceColor) -> (r: bool)
        ensures
            r == self@.right(*color, false),
    {
        match color {
            PieceColor::White => self.white_can_castle_queen_side,
            PieceColor::Black => self.black_can_castle_queen_side,
        }
    }

    /// Whether `color` keeps its right to castle on the king's side.
    pub fn can_castle_king_side(&self, color: &PieceColor) -> (r: bool)
        ensures
            r == self@.right(*color, true),
    {
        match color {
            PieceColor::White => self.white_can_castle_king_side,
            PieceColor::Black => self.black_can_castle_king_side,
        }
    }

    /// Whether castling right `(color, king_side)` survives `m`.
    fn right_after(&self, m: &ChessMove, color: PieceColor, king_side: bool) -> (r: bool)
        ensures
            r == self@.right_after(*m, color, king_side),
    {
        let row = color.homerow();
        let king = Coords { x: 4, y: row };
        let rook = Coords { x: if king_side { 7 } else { 0 }, y: row };
        let right = if king_side {
            self.can_castle_king_side(&color)
        } else {
            self.can_castle_queen_side(&color)
        };
        right && match m {
            ChessMove::CastleLeft | ChessMove::CastleRight => self.to_move != color,
            ChessMove::RegularMove(mv) | ChessMove::PawnSkip(mv) | ChessMove::EnPassant(mv, _)
            | ChessMove::Promotion(mv, _) => mv.origin != king && mv.origin != rook
                && mv.destination != king && mv.destination != rook,
        }
    }

    /// The position after `chess_move` is played.
    pub fn after_move(&self, chess_move: &ChessMove) -> (r: Position)
        requires
            self@.wf(),
            move_in_bounds(*chess_move),
        ensures
            r@ == self@.after(*chess_move),
            r@.wf(),
    {
        let mut new_board = copy_board(&self.board);
        let mut en_passant_on: Option<Coords> = None;
        let row = self.to_move.homerow();
        match chess_move {
            ChessMove::RegularMove(movement) => {
                move_piece(&mut new_board, movement.origin, movement.destination);
            },
            ChessMove::PawnSkip(movement) => {
                move_piece(&mut new_board, movement.origin, movement.destination);
                en_passant_on = Some(
                    Coords {
                        x: movement.origin.x,
                        y: (movement.origin.y + movement.destination.y) / 2,
                    },
                );
            },
            ChessMove::CastleLeft => {
                move_piece(&mut new_board, Coords { x: 4, y: row }, Coords { x: 2, y: row });
                move_piece(&mut new_board, Coords { x: 0, y: row }, Coords { x: 3, y: row });
            },
            ChessMove::CastleRight => {
                move_piece(&mut new_board, Coords { x: 4, y: row }, Coords { x: 6, y: row });
                move_piece(&mut new_board, Coords { x: 7, y: row }, Coords { x: 5, y: row });
            },
            ChessMove::EnPassant(movement, pawn_taken) => {
                move_piece(&mut new_board, movement.origin, movement.destination);
                take_piece_at(&mut new_board, *pawn_taken);
            },
            ChessMove::Promotion(movement, promoted_to) => {
                take_piece_at(&mut new_board, movement.origin);
                put_piece_at(
                    &mut new_board,
                    Piece { kind: *promoted_to, color: self.to_move },
                    movement.destination,
                );
            },
        }
        Position {
            board: new_board,
            to_move: self.to_move.opposite(),
            white_can_castle_queen_side: self.right_after(chess_move, PieceColor::White, false),
            white_can_castle_king_side: self.right_after(chess_move, PieceColor::White, true),
            black_can_castle_queen_side: self.right_after(chess_move, PieceColor::Black, false),
            black_can_castle_king_side: self.right_after(chess_move, PieceColor::Black, true),
            en_passant_on,
        }
    }

    /// The number of pieces of `color` on the board.
    pub fn piece_count(&self, color: PieceColor) -> (r: usize)
        requires
            self@.wf(),
        ensures
            r == count_upto(self@, color, 64),
    {
        let mut n: usize = 0;
        let mut k: usize = 0;
        while k < 64
            invariant
                self@.wf(),
                k <= 64,
                n == count_upto(self@, color, k as int),
                n <= k,
            decreases 64 - k,
        {
            let c = Coords { x: (k % 8) as isize, y: (k / 8) as isize };
            assert(c == crate::coords::square_of_index(k as int));
            match crate::board_manip::piece_at(&self.board, &c) {
                Some(p) => if p.color == color {
                    n = n + 1;
                },
                None => {},
            }
            k = k + 1;
        }
        n
    }
}

} // verus!
