use vstd::prelude::*;
use crate::chess_move::{ChessMove, Move};
use crate::coords::{
    all_dirs, diagonal_dirs, dir, orthogonal_dirs, sq, square_of_index, Coords, Direction,
};
use crate::piece::{promotable_kinds, Piece, PieceColor, PieceKind};

verus! {

/// A board as rows of squares: `g[y][x]`.
pub type Grid = Seq<Seq<Option<Piece>>>;

/// The grid that a board of vectors holds.
pub open spec fn grid_of(b: Vec<Vec<Option<Piece>>>) -> Grid {
    b@.map_values(|r: Vec<Option<Piece>>| r@)
}

/// Eight rows of eight squares.
pub open spec fn grid_wf(g: Grid) -> bool {
    g.len() == 8 && forall|i: int| 0 <= i < 8 ==> (#[trigger] g[i]).len() == 8
}

pub open spec fn grid_at(g: Grid, c: Coords) -> Option<Piece> {
    g[c.y as int][c.x as int]
}

/// The grid with square `c` set to `v`.
pub open spec fn grid_with(g: Grid, c: Coords, v: Option<Piece>) -> Grid {
    g.update(c.y as int, g[c.y as int].update(c.x as int, v))
}

/// The grid after the piece on `o`, if any, goes to `d`.
pub open spec fn grid_moved(g: Grid, o: Coords, d: Coords) -> Grid {
    match grid_at(g, o) {
        Some(p) => grid_with(grid_with(g, o, None), d, Some(p)),
        None => g,
    }
}

/// The eight knight jumps, in the order moves are generated.
pub open spec fn knight_offsets() -> Seq<Direction> {
    seq![dir(1, 2), dir(-1, 2), dir(2, 1), dir(-2, 1), dir(1, -2), dir(-1, -2), dir(-2, -1), dir(2, -1)]
}

pub open spec fn regular(o: Coords, d: Coords) -> ChessMove {
    ChessMove::RegularMove(Move { origin: o, destination: d })
}

/// A regular move from `o` to each square of `cs`, in order.
pub open spec fn regular_moves(o: Coords, cs: Seq<Coords>) -> Seq<ChessMove>
    decreases cs.len(),
{
    if cs.len() == 0 {
        seq![]
    } else {
        regular_moves(o, cs.drop_last()) + seq![regular(o, cs.last())]
    }
}

/// How many steps a ray of the given limit takes: at most seven.
pub open spec fn ray_last(limit: Option<isize>) -> int {
    match limit {
        Some(l) => if l < 7 {
            l as int
        } else {
            7
        },
        None => 7,
    }
}

/// Every square that the move names lies on the board.
pub open spec fn move_in_bounds(m: ChessMove) -> bool {
    match m {
        ChessMove::RegularMove(mv) => mv.origin.in_bounds() && mv.destination.in_bounds(),
        ChessMove::PawnSkip(mv) => mv.origin.in_bounds() && mv.destination.in_bounds(),
        ChessMove::EnPassant(mv, t) => mv.origin.in_bounds() && mv.destination.in_bounds()
            && t.in_bounds(),
        ChessMove::Promotion(mv, _) => mv.origin.in_bounds() && mv.destination.in_bounds(),
        _ => true,
    }
}

/// A pawn move turned into the moves it stands for: a regular move onto the
/// last rank becomes one promotion for each promotable kind.
pub open spec fn expand_promotion(m: ChessMove, color: PieceColor) -> Seq<ChessMove> {
    match m {
        ChessMove::RegularMove(mv) => if mv.destination.y == color.other().home() {
            promotable_kinds().map_values(|k: PieceKind| ChessMove::Promotion(mv, k))
        } else {
            seq![m]
        },
        _ => seq![m],
    }
}

pub open spec fn expand_promotions(ms: Seq<ChessMove>, color: PieceColor) -> Seq<ChessMove>
    decreases ms.len(),
{
    if ms.len() == 0 {
        seq![]
    } else {
        expand_promotions(ms.drop_last(), color) + expand_promotion(ms.last(), color)
    }
}

/// The state of a game: the board, the side to move, the castling rights and
/// the en-passant target.
pub struct PositionView {
    pub board: Grid,
    pub to_move: PieceColor,
    pub white_queen_side: bool,
    pub white_king_side: bool,
    pub black_queen_side: bool,
    pub black_king_side: bool,
    pub en_passant_on: Option<Coords>,
}

impl PositionView {
    pub open spec fn wf(self) -> bool {
        &&& grid_wf(self.board)
        &&& (self.en_passant_on matches Some(t) ==> t.in_bounds())
    }

    pub open spec fn at(self, c: Coords) -> Option<Piece> {
        grid_at(self.board, c)
    }

    pub open spec fn empty_at(self, c: Coords) -> bool {
        self.at(c) is None
    }

    pub open spec fn holds(self, c: Coords, kind: PieceKind, color: PieceColor) -> bool {
        self.at(c) == Some(Piece { kind, color })
    }

    /// The castling right of `color` on the king's side (`king_side`) or the queen's.
    pub open spec fn right(self, color: PieceColor, king_side: bool) -> bool {
        match (color, king_side) {
            (PieceColor::White, true) => self.white_king_side,
            (PieceColor::White, false) => self.white_queen_side,
            (PieceColor::Black, true) => self.black_king_side,
            (PieceColor::Black, false) => self.black_queen_side,
        }
    }

    // ---- movement of pieces ----
    /// The squares that a piece of `color` on `o` reaches along `d`, from step
    /// `i` to step `last`: up to the board's edge, or up to the first occupied
    /// square, which is included when it holds an opposing piece.
    pub open spec fn ray(self, o: Coords, d: Direction, color: PieceColor, i: int, last: int) -> Seq<
        Coords,
    >
        decreases last + 1 - i,
    {
        if i > last {
            seq![]
        } else {
            let n = o.step(d, i);
            if !o.step_on_board(d, i) {
                seq![]
            } else {
                match self.at(n) {
                    Some(p) => if p.color == color.other() {
                        seq![n]
                    } else {
                        seq![]
                    },
                    None => seq![n] + self.ray(o, d, color, i + 1, last),
                }
            }
        }
    }

    /// The regular moves along each direction of `dirs` in turn, at most `last` steps.
    pub open spec fn ray_moves(
        self,
        o: Coords,
        dirs: Seq<Direction>,
        color: PieceColor,
        last: int,
    ) -> Seq<ChessMove>
        decreases dirs.len(),
    {
        if dirs.len() == 0 {
            seq![]
        } else {
            self.ray_moves(o, dirs.drop_last(), color, last) + regular_moves(
                o,
                self.ray(o, dirs.last(), color, 1, last),
            )
        }
    }

    /// The regular moves by each jump of `offs` in turn onto a square on the
    /// board that holds no piece of `color`.
    pub open spec fn jump_moves(self, o: Coords, offs: Seq<Direction>, color: PieceColor) -> Seq<
        ChessMove,
    >
        decreases offs.len(),
    {
        if offs.len() == 0 {
            seq![]
        } else {
            let t = o.step(offs.last(), 1);
            self.jump_moves(o, offs.drop_last(), color) + if t.in_bounds() && !(self.at(t) matches Some(
                p,
            ) && p.color == color) {
                seq![regular(o, t)]
            } else {
                seq![]
            }
        }
    }

    /// The diagonal capture of a pawn of `color` on `o` towards file `o.x + side`.
    pub open spec fn pawn_capture(self, o: Coords, color: PieceColor, side: int) -> Seq<ChessMove> {
        let t = sq(o.x + side, o.y + color.forward());
        if t.in_bounds() && (self.at(t) matches Some(p) && p.color == color.other()) {
            seq![regular(o, t)]
        } else {
            seq![]
        }
    }

    /// The en-passant capture open to a pawn of `color` on `o`, if any: the
    /// target must lie on the rank an opposing pawn passes over in a double
    /// push, and `o` diagonally behind it.
    pub open spec fn en_passant_moves(self, o: Coords, color: PieceColor) -> Seq<ChessMove> {
        match self.en_passant_on {
            None => seq![],
            Some(t) => {
                let back = color.other().forward();
                if t.y == color.other().home() + 2 * back && (sq(t.x + 1, t.y + back) == o || sq(
                    t.x - 1,
                    t.y + back,
                ) == o) {
                    seq![
                        ChessMove::EnPassant(
                            Move { origin: o, destination: t },
                            sq(t.x as int, t.y + back),
                        ),
                    ]
                } else {
                    seq![]
                }
            },
        }
    }

    /// The pawn moves before promotions are spelled out: one step, two steps,
    /// the two captures, en passant.
    pub open spec fn pawn_pushes(self, o: Coords, color: PieceColor) -> Seq<ChessMove> {
        let one = sq(o.x as int, o.y + color.forward());
        let two = sq(o.x as int, o.y + 2 * color.forward());
        if self.empty_at(one) {
            seq![regular(o, one)] + if two.in_bounds() && o.y == color.home() + color.forward()
                && self.empty_at(two) {
                seq![ChessMove::PawnSkip(Move { origin: o, destination: two })]
            } else {
                seq![]
            }
        } else {
            seq![]
        }
    }

    pub open spec fn pawn_base_moves(self, o: Coords, color: PieceColor) -> Seq<ChessMove> {
        self.pawn_pushes(o, color) + self.pawn_capture(o, color, 1) + self.pawn_capture(o, color, -1)
            + self.en_passant_moves(o, color)
    }

    pub open spec fn pawn_moves(self, o: Coords, color: PieceColor) -> Seq<ChessMove> {
        if !sq(o.x as int, o.y + color.forward()).in_bounds() {
            seq![]
        } else {
            expand_promotions(self.pawn_base_moves(o, color), color)
        }
    }

    /// Castling on the king's side (`king_side`) or the queen's is open to
    /// `color`: the right is kept, king and rook stand on their squares, the
    /// squares between them are empty, and neither the king's square, the
    /// square it passes over nor the square it lands on is attacked.
    pub open spec fn castle_open(self, color: PieceColor, king_side: bool) -> bool {
        let row = color.home();
        &&& self.right(color, king_side)
        &&& self.holds(sq(4, row), PieceKind::King, color)
        &&& self.holds(sq(if king_side { 7 } else { 0 }, row), PieceKind::Rook, color)
        &&& if king_side {
            self.empty_at(sq(5, row)) && self.empty_at(sq(6, row))
        } else {
            self.empty_at(sq(3, row)) && self.empty_at(sq(2, row)) && self.empty_at(sq(1, row))
        }
        &&& !self.attacked_by(color.other(), sq(4, row))
        &&& !self.attacked_by(color.other(), sq(if king_side { 5 } else { 3 }, row))
        &&& !self.attacked_by(color.other(), sq(if king_side { 6 } else { 2 }, row))
    }

    pub open spec fn king_moves(self, o: Coords, color: PieceColor) -> Seq<ChessMove> {
        self.ray_moves(o, all_dirs(), color, 1) + (if self.castle_open(color, true) {
            seq![ChessMove::CastleRight]
        } else {
            seq![]
        }) + (if self.castle_open(color, false) {
            seq![ChessMove::CastleLeft]
        } else {
            seq![]
        })
    }

    /// The moves of piece `p` standing on `o`, before the check filter.
    pub open spec fn piece_moves(self, o: Coords, p: Piece) -> Seq<ChessMove> {
        match p.kind {
            PieceKind::Pawn => self.pawn_moves(o, p.color),
            PieceKind::Rook => self.ray_moves(o, orthogonal_dirs(), p.color, 7),
            PieceKind::Knight => self.jump_moves(o, knight_offsets(), p.color),
            PieceKind::Bishop => self.ray_moves(o, diagonal_dirs(), p.color, 7),
            PieceKind::Queen => self.ray_moves(o, all_dirs(), p.color, 7),
            PieceKind::King => self.king_moves(o, p.color),
        }
    }

    /// The pseudo-legal moves from `o`: those of a piece of the side to move.
    pub open spec fn possible(self, o: Coords) -> Seq<ChessMove> {
        if !o.in_bounds() {
            seq![]
        } else {
            match self.at(o) {
                Some(p) => if p.color == self.to_move {
                    self.piece_moves(o, p)
                } else {
                    seq![]
                },
                None => seq![],
            }
        }
    }

    // ---- attacks ----
    /// The first piece met along `d` from `s`, from step `i` on.
    pub open spec fn first_piece(self, s: Coords, d: Direction, i: int) -> Option<Piece>
        decreases 8 - i,
    {
        if i >= 8 {
            None
        } else {
            let n = s.step(d, i);
            if !n.in_bounds() {
                None
            } else {
                match self.at(n) {
                    Some(p) => Some(p),
                    None => self.first_piece(s, d, i + 1),
                }
            }
        }
    }

    /// A rook (or, with `diagonal`, a bishop) or a queen of `by` is the first
    /// piece along one of `dirs` from `s`.
    pub open spec fn slider_attack(self, s: Coords, dirs: Seq<Direction>, by: PieceColor, diagonal: bool) -> bool
        decreases dirs.len(),
    {
        if dirs.len() == 0 {
            false
        } else {
            self.slider_attack(s, dirs.drop_last(), by, diagonal) || match self.first_piece(s, dirs.last(), 1) {
                Some(p) => p.color == by && (p.kind == PieceKind::Queen || p.kind == if diagonal {
                    PieceKind::Bishop
                } else {
                    PieceKind::Rook
                }),
                None => false,
            }
        }
    }

    /// A piece of `kind` and `by` stands one jump of `offs` away from `s`.
    pub open spec fn jump_attack(self, s: Coords, offs: Seq<Direction>, by: PieceColor, kind: PieceKind) -> bool
        decreases offs.len(),
    {
        if offs.len() == 0 {
            false
        } else {
            self.jump_attack(s, offs.drop_last(), by, kind) || {
                let t = s.step(offs.last(), 1);
                t.in_bounds() && self.holds(t, kind, by)
            }
        }
    }

    /// A pawn of `by` attacks `s` diagonally.
    pub open spec fn pawn_attack(self, s: Coords, by: PieceColor) -> bool {
        let r = s.y + by.other().forward();
        (sq(s.x + 1, r).in_bounds() && self.holds(sq(s.x + 1, r), PieceKind::Pawn, by)) || (sq(
            s.x - 1,
            r,
        ).in_bounds() && self.holds(sq(s.x - 1, r), PieceKind::Pawn, by))
    }

    /// A pawn of the other side on `s` has just passed over the en-passant
    /// target, and a pawn of `by` attacks that target.
    pub open spec fn en_passant_attack(self, s: Coords, by: PieceColor) -> bool {
        let t = sq(s.x as int, s.y + by.forward());
        &&& self.holds(s, PieceKind::Pawn, by.other())
        &&& self.en_passant_on == Some(t)
        &&& self.pawn_attack(t, by)
    }

    /// Square `s` is attacked by side `by`.
    pub open spec fn attacked_by(self, by: PieceColor, s: Coords) -> bool {
        ||| self.jump_attack(s, all_dirs(), by, PieceKind::King)
        ||| self.slider_attack(s, orthogonal_dirs(), by, false)
        ||| self.slider_attack(s, diagonal_dirs(), by, true)
        ||| self.jump_attack(s, knight_offsets(), by, PieceKind::Knight)
        ||| self.pawn_attack(s, by)
        ||| self.en_passant_attack(s, by)
    }

    /// The first square, in rank-major order from index `k`, that holds the king of `color`.
    pub open spec fn king_from(self, color: PieceColor, k: int) -> Option<Coords>
        decreases 64 - k,
    {
        if k >= 64 || k < 0 {
            None
        } else if self.holds(square_of_index(k), PieceKind::King, color) {
            Some(square_of_index(k))
        } else {
            self.king_from(color, k + 1)
        }
    }

    pub open spec fn king_square(self, color: PieceColor) -> Option<Coords> {
        self.king_from(color, 0)
    }

    /// The king of `color` is on the board and attacked.
    pub open spec fn in_check(self, color: PieceColor) -> bool {
        match self.king_square(color) {
            Some(l) => self.attacked_by(color.other(), l),
            None => false,
        }
    }

    // ---- applying a move ----
    /// The castling right `(color, king_side)` survives move `m`: a castling
    /// by `color` ends both of its rights, and any other move that leaves or
    /// reaches the king's or that rook's home square ends it.
    pub open spec fn right_after(self, m: ChessMove, color: PieceColor, king_side: bool) -> bool {
        let row = color.home();
        let king = sq(4, row);
        let rook = sq(if king_side { 7 } else { 0 }, row);
        self.right(color, king_side) && match m {
            ChessMove::CastleLeft => self.to_move != color,
            ChessMove::CastleRight => self.to_move != color,
            ChessMove::RegularMove(mv) => mv.origin != king && mv.origin != rook && mv.destination
                != king && mv.destination != rook,
            ChessMove::PawnSkip(mv) => mv.origin != king && mv.origin != rook && mv.destination
                != king && mv.destination != rook,
            ChessMove::EnPassant(mv, _) => mv.origin != king && mv.origin != rook && mv.destination
                != king && mv.destination != rook,
            ChessMove::Promotion(mv, _) => mv.origin != king && mv.origin != rook && mv.destination
                != king && mv.destination != rook,
        }
    }

    pub open spec fn board_after(self, m: ChessMove) -> Grid {
        let row = self.to_move.home();
        match m {
            ChessMove::RegularMove(mv) => grid_moved(self.board, mv.origin, mv.destination),
            ChessMove::PawnSkip(mv) => grid_moved(self.board, mv.origin, mv.destination),
            ChessMove::CastleLeft => grid_moved(
                grid_moved(self.board, sq(4, row), sq(2, row)),
                sq(0, row),
                sq(3, row),
            ),
            ChessMove::CastleRight => grid_moved(
                grid_moved(self.board, sq(4, row), sq(6, row)),
                sq(7, row),
                sq(5, row),
            ),
            ChessMove::EnPassant(mv, t) => grid_with(
                grid_moved(self.board, mv.origin, mv.destination),
                t,
                None,
            ),
            ChessMove::Promotion(mv, k) => grid_with(
                grid_with(self.board, mv.origin, None),
                mv.destination,
                Some(Piece { kind: k, color: self.to_move }),
            ),
        }
    }

    /// The en-passant target after `m`: the square passed over by a double
    /// pawn push, and none after any other move.
    pub open spec fn en_passant_after(self, m: ChessMove) -> Option<Coords> {
        match m {
            ChessMove::PawnSkip(mv) => Some(
                sq(mv.origin.x as int, (mv.origin.y + mv.destination.y) / 2),
            ),
            _ => None,
        }
    }

    /// The position after move `m`.
    pub open spec fn after(self, m: ChessMove) -> PositionView {
        PositionView {
            board: self.board_after(m),
            to_move: self.to_move.other(),
            white_queen_side: self.right_after(m, PieceColor::White, false),
            white_king_side: self.right_after(m, PieceColor::White, true),
            black_queen_side: self.right_after(m, PieceColor::Black, false),
            black_king_side: self.right_after(m, PieceColor::Black, true),
            en_passant_on: self.en_passant_after(m),
        }
    }

    // ---- legality ----
    /// The moves of `ms` that do not leave the mover's king attacked.
    pub open spec fn keep_legal(self, ms: Seq<ChessMove>) -> Seq<ChessMove>
        decreases ms.len(),
    {
        if ms.len() == 0 {
            seq![]
        } else {
            self.keep_legal(ms.drop_last()) + if self.after(ms.last()).in_check(self.to_move) {
                seq![]
            } else {
                seq![ms.last()]
            }
        }
    }

    /// The legal moves from `o`.
    pub open spec fn legal(self, o: Coords) -> Seq<ChessMove> {
        self.keep_legal(self.possible(o))
    }

    /// The legal moves from the first `k` squares in rank-major order.
    pub open spec fn legal_upto(self, k: int) -> Seq<ChessMove>
        decreases k,
    {
        if k <= 0 {
            seq![]
        } else {
            self.legal_upto(k - 1) + self.legal(square_of_index(k - 1))
        }
    }

    /// All legal moves of the side to move, square by square in rank-major order.
    pub open spec fn all_legal(self) -> Seq<ChessMove> {
        self.legal_upto(64)
    }

    /// The pseudo-legal moves from the first `k` squares.
    pub open spec fn possible_upto(self, k: int) -> Seq<ChessMove>
        decreases k,
    {
        if k <= 0 {
            seq![]
        } else {
            self.possible_upto(k - 1) + self.possible(square_of_index(k - 1))
        }
    }

    /// The square a move starts from; for castling, the king's home square.
    pub open spec fn origin_of(self, m: ChessMove) -> Coords {
        match m {
            ChessMove::RegularMove(mv) => mv.origin,
            ChessMove::PawnSkip(mv) => mv.origin,
            ChessMove::EnPassant(mv, _) => mv.origin,
            ChessMove::Promotion(mv, _) => mv.origin,
            _ => sq(4, self.to_move.home()),
        }
    }

    pub open spec fn is_legal(self, m: ChessMove) -> bool {
        self.legal(self.origin_of(m)).contains(m)
    }

    pub open spec fn checkmate(self) -> bool {
        self.in_check(self.to_move) && self.all_legal().len() == 0
    }

    pub open spec fn stalemate(self) -> bool {
        !self.in_check(self.to_move) && self.all_legal().len() == 0
    }
}

} // verus!
