use vstd::prelude::*;
use crate::attack::{knight_jumps, short_dirs, step_from};
use crate::board_manip::piece_at;
use crate::chess_move::{ChessMove, Move};
use crate::coords::{all_squares, square_of_index, sq, all_dirs, cards, diagonal_dirs, eight_degrees, inter_cards, orthogonal_dirs, Coords, Direction};
use crate::piece::{promotable_kinds, Piece, PieceColor, PieceKind};
use crate::position::Position;
use crate::rules::{expand_promotions, knight_offsets, move_in_bounds, ray_last, regular, regular_moves};

verus! {

/// Every move of `ms` names only squares on the board.
pub open spec fn all_in_bounds(ms: Seq<ChessMove>) -> bool {
    forall|i: int| 0 <= i < ms.len() ==> move_in_bounds(#[trigger] ms[i])
}

proof fn lemma_wide_product(d: int, k: int)
    requires
        isize::MIN <= d <= isize::MAX,
        0 <= k <= 8,
    ensures
        8 * isize::MIN <= d * k <= 8 * isize::MAX,
{
    assert(8 * isize::MIN <= d * k <= 8 * isize::MAX) by (nonlinear_arith)
        requires
            isize::MIN <= d <= isize::MAX,
            0 <= k <= 8,
    ;
}

proof fn lemma_short_all_dirs()
    ensures
        short_dirs(all_dirs()),
        short_dirs(orthogonal_dirs()),
        short_dirs(diagonal_dirs()),
        short_dirs(knight_offsets()),
{
    assert(short_dirs(all_dirs())) by {
        assert(all_dirs() =~= diagonal_dirs() + orthogonal_dirs());
    }
}

impl Position {
    /// The square `k` steps of `d` from `origin`, if it lies on the board.
    fn ray_step(origin: &Coords, d: &Direction, k: isize) -> (r: Option<Coords>)
        requires
            origin.in_bounds(),
            0 <= k <= 8,
        ensures
            r is Some <==> origin.step_on_board(*d, k as int),
            r matches Some(c) ==> c == origin.step(*d, k as int) && c.in_bounds(),
    {
        proof {
            lemma_wide_product(d.dx as int, k as int);
            lemma_wide_product(d.dy as int, k as int);
        }
        let x: i128 = origin.x as i128 + d.dx as i128 * k as i128;
        let y: i128 = origin.y as i128 + d.dy as i128 * k as i128;
        if 0 <= x && x < 8 && 0 <= y && y < 8 {
            Some(Coords { x: x as isize, y: y as isize })
        } else {
            None
        }
    }

    /// The squares that a piece of `origin_color` on `origin` reaches along
    /// `direction`, at most `limit` steps (seven when `None`).
    pub fn raycast(
        &self,
        origin: &Coords,
        direction: &Direction,
        origin_color: &PieceColor,
        limit: Option<isize>,
    ) -> (r: Vec<Coords>)
        requires
            self@.wf(),
            origin.in_bounds(),
        ensures
            r@ == self@.ray(*origin, *direction, *origin_color, 1, ray_last(limit)),
            forall|i: int| 0 <= i < r@.len() ==> (#[trigger] r@[i]).in_bounds(),
    {
        let last: isize = match limit {
            Some(l) => if l < 7 {
                l
            } else {
                7
            },
            None => 7,
        };
        assert(ray_last(limit) == last as int);
        let ghost whole = self@.ray(*origin, *direction, *origin_color, 1, last as int);
        let mut squares: Vec<Coords> = Vec::new();
        let mut i: isize = 1;
        while i <= last
            invariant
                self@.wf(),
                origin.in_bounds(),
                1 <= i <= 8,
                last <= 7,
                whole == self@.ray(*origin, *direction, *origin_color, 1, ray_last(limit)),
                squares@ + self@.ray(*origin, *direction, *origin_color, i as int, last as int)
                    == whole,
                forall|k: int| 0 <= k < squares@.len() ==> (#[trigger] squares@[k]).in_bounds(),
            decreases last + 1 - i,
        {
            let next_square = match Position::ray_step(origin, direction, i) {
                Some(c) => c,
                None => {
                    assert(self@.ray(*origin, *direction, *origin_color, i as int, last as int)
                        =~= Seq::<Coords>::empty());
                    assert(squares@ + seq![] =~= squares@);
                    return squares;
                },
            };
            match piece_at(&self.board, &next_square) {
                Some(piece) => {
                    let ghost rest = self@.ray(*origin, *direction, *origin_color, i as int, last as int);
                    let ghost before = squares@;
                    if piece.color == origin_color.opposite() {
                        assert(rest =~= seq![next_square]);
                        squares.push(next_square);
                        assert(squares@ =~= before + rest);
                    } else {
                        assert(rest =~= Seq::<Coords>::empty());
                        assert(squares@ + seq![] =~= squares@);
                    }
                    return squares;
                },
                None => {
                    let ghost before = squares@;
                    squares.push(next_square);
                    assert(before + (seq![next_square] + self@.ray(
                        *origin,
                        *direction,
                        *origin_color,
                        i + 1,
                        last as int,
                    )) =~= squares@ + self@.ray(
                        *origin,
                        *direction,
                        *origin_color,
                        i + 1,
                        last as int,
                    ));
                },
            }
            i = i + 1;
        }
        assert(squares@ + seq![] =~= squares@);
        squares
    }

    /// The regular moves along each of `directions` in turn, at most `limit` steps each.
    fn projected_movement(
        &self,
        origin: &Coords,
        directions: &Vec<Direction>,
        origin_color: &PieceColor,
        limit: Option<isize>,
    ) -> (r: Vec<ChessMove>)
        requires
            self@.wf(),
            origin.in_bounds(),
            short_dirs(directions@),
        ensures
            r@ == self@.ray_moves(*origin, directions@, *origin_color, ray_last(limit)),
            all_in_bounds(r@),
    {
        let mut moves: Vec<ChessMove> = Vec::new();
        let mut k: usize = 0;
        while k < directions.len()
            invariant
                self@.wf(),
                origin.in_bounds(),
                short_dirs(directions@),
                k <= directions@.len(),
                moves@ == self@.ray_moves(
                    *origin,
                    directions@.subrange(0, k as int),
                    *origin_color,
                    ray_last(limit),
                ),
                all_in_bounds(moves@),
            decreases directions@.len() - k,
        {
            let dir = directions[k];
            let squares = self.raycast(origin, &dir, origin_color, limit);
            let ghost base = moves@;
            let mut j: usize = 0;
            while j < squares.len()
                invariant
                    origin.in_bounds(),
                    j <= squares@.len(),
                    moves@ == base + regular_moves(*origin, squares@.subrange(0, j as int)),
                    all_in_bounds(moves@),
                    forall|i: int| 0 <= i < squares@.len() ==> (#[trigger] squares@[i]).in_bounds(),
                decreases squares@.len() - j,
            {
                moves.push(ChessMove::RegularMove(Move { origin: *origin, destination: squares[j] }));
                assert(squares@.subrange(0, j + 1).drop_last() =~= squares@.subrange(0, j as int));
                assert(moves@ =~= base + regular_moves(*origin, squares@.subrange(0, j + 1)));
                j = j + 1;
            }
            assert(squares@.subrange(0, squares@.len() as int) =~= squares@);
            assert(directions@.subrange(0, k + 1).drop_last() =~= directions@.subrange(0, k as int));
            k = k + 1;
        }
        assert(directions@.subrange(0, directions@.len() as int) =~= directions@);
        moves
    }

    fn rook_from(&self, origin: &Coords, color: &PieceColor) -> (r: Vec<ChessMove>)
        requires
            self@.wf(),
            origin.in_bounds(),
        ensures
            r@ == self@.ray_moves(*origin, orthogonal_dirs(), *color, 7),
            all_in_bounds(r@),
    {
        proof {
            lemma_short_all_dirs();
        }
        self.projected_movement(origin, &cards(), color, None)
    }

    fn bishop_from(&self, origin: &Coords, color: &PieceColor) -> (r: Vec<ChessMove>)
        requires
            self@.wf(),
            origin.in_bounds(),
        ensures
            r@ == self@.ray_moves(*origin, diagonal_dirs(), *color, 7),
            all_in_bounds(r@),
    {
        proof {
            lemma_short_all_dirs();
        }
        self.projected_movement(origin, &inter_cards(), color, None)
    }

    fn queen_movement(&self, origin: &Coords, color: &PieceColor) -> (r: Vec<ChessMove>)
        requires
            self@.wf(),
            origin.in_bounds(),
        ensures
            r@ == self@.ray_moves(*origin, all_dirs(), *color, 7),
            all_in_bounds(r@),
    {
        proof {
            lemma_short_all_dirs();
        }
        self.projected_movement(origin, &eight_degrees(), color, None)
    }

    fn knight_from(&self, origin: &Coords, color: &PieceColor) -> (r: Vec<ChessMove>)
        requires
            self@.wf(),
            origin.in_bounds(),
        ensures
            r@ == self@.jump_moves(*origin, knight_offsets(), *color),
            all_in_bounds(r@),
    {
        proof {
            lemma_short_all_dirs();
        }
        let offs = knight_jumps();
        let mut moves: Vec<ChessMove> = Vec::new();
        let mut k: usize = 0;
        while k < offs.len()
            invariant
                self@.wf(),
                origin.in_bounds(),
                short_dirs(offs@),
                k <= offs@.len(),
                moves@ == self@.jump_moves(*origin, offs@.subrange(0, k as int), *color),
                all_in_bounds(moves@),
            decreases offs@.len() - k,
        {
            let t = step_from(origin, offs[k], 1);
            assert(offs@.subrange(0, k + 1).drop_last() =~= offs@.subrange(0, k as int));
            if t.is_in_bounds() && match piece_at(&self.board, &t) {
                Some(p) => p.color != *color,
                None => true,
            } {
                moves.push(ChessMove::RegularMove(Move { origin: *origin, destination: t }));
            } else {
                assert(moves@ + seq![] =~= moves@);
            }
            k = k + 1;
        }
        assert(offs@.subrange(0, offs@.len() as int) =~= offs@);
        moves
    }

    /// The two squares a pawn of `color` on `origin` captures on: file + 1, then file - 1.
    fn pawn_attacked_squares(origin: &Coords, color: &PieceColor) -> (r: Vec<Coords>)
        requires
            origin.in_bounds(),
        ensures
            r@ == seq![
                sq(origin.x + 1, origin.y + color.forward()),
                sq(origin.x - 1, origin.y + color.forward()),
            ],
    {
        let r = vec![
            Coords { x: origin.x + 1, y: origin.y + color.pawn_orientation() },
            Coords { x: origin.x - 1, y: origin.y + color.pawn_orientation() },
        ];
        assert(r@ =~= seq![
            sq(origin.x + 1, origin.y + color.forward()),
            sq(origin.x - 1, origin.y + color.forward()),
        ]);
        r
    }

    /// The en-passant capture open to a pawn of `color` on `origin`, if any.
    fn en_passant_from(&self, origin: &Coords, color: &PieceColor) -> (r: Option<ChessMove>)
        requires
            self@.wf(),
            origin.in_bounds(),
        ensures
            match r {
                Some(m) => seq![m],
                None => Seq::<ChessMove>::empty(),
            } == self@.en_passant_moves(*origin, *color),
            r matches Some(m) ==> move_in_bounds(m),
    {
        match self.en_passant_on {
            None => None,
            Some(target) => {
                let back = color.opposite().pawn_orientation();
                let right = Coords { x: target.x + 1, y: target.y + back };
                let left = Coords { x: target.x - 1, y: target.y + back };
                let pass_rank = color.opposite().homerow() + 2 * back;
                if target.y == pass_rank && (right == *origin || left == *origin) {
                    Some(
                        ChessMove::EnPassant(
                            Move { origin: *origin, destination: target },
                            Coords { x: target.x, y: target.y + back },
                        ),
                    )
                } else {
                    None
                }
            },
        }
    }

    /// The moves of a pawn of `color` on `origin`; a move onto the last rank
    /// becomes four promotions.
    fn pawn_from(&self, origin: &Coords, color: &PieceColor) -> (r: Vec<ChessMove>)
        requires
            self@.wf(),
            origin.in_bounds(),
        ensures
            r@ == self@.pawn_moves(*origin, *color),
            all_in_bounds(r@),
    {
        let ahead_one = Coords { x: origin.x, y: origin.y + color.pawn_orientation() };
        if !ahead_one.is_in_bounds() {
            return Vec::new();
        }
        let base = self.pawn_base_from(origin, color);
        Position::promote_all(&base, color)
    }

    /// The capture of a pawn of `color` on `origin` onto `diagonal`, if an
    /// opposing piece stands there.
    fn pawn_capture_onto(&self, origin: &Coords, color: &PieceColor, diagonal: Coords) -> (r: Option<ChessMove>)
        requires
            self@.wf(),
            origin.in_bounds(),
            diagonal.y == origin.y + color.forward(),
            diagonal.x == origin.x + 1 || diagonal.x == origin.x - 1,
        ensures
            match r {
                Some(m) => seq![m],
                None => Seq::<ChessMove>::empty(),
            } == self@.pawn_capture(*origin, *color, diagonal.x - origin.x),
            r matches Some(m) ==> move_in_bounds(m),
    {
        if diagonal.is_in_bounds() {
            match piece_at(&self.board, &diagonal) {
                Some(piece) => if piece.color == color.opposite() {
                    return Some(ChessMove::RegularMove(Move { origin: *origin, destination: diagonal }));
                },
                None => {},
            }
        }
        None
    }

    /// One step forward onto an empty square, then two from the starting rank.
    fn pawn_pushes_from(&self, origin: &Coords, color: &PieceColor) -> (r: Vec<ChessMove>)
        requires
            self@.wf(),
            origin.in_bounds(),
            sq(origin.x as int, origin.y + color.forward()).in_bounds(),
        ensures
            r@ == self@.pawn_pushes(*origin, *color),
            all_in_bounds(r@),
    {
        let forward = color.pawn_orientation();
        let ahead_one = Coords { x: origin.x, y: origin.y + forward };
        let ahead_two = Coords { x: origin.x, y: origin.y + 2 * forward };
        let mut base: Vec<ChessMove> = Vec::new();
        if piece_at(&self.board, &ahead_one).is_none() {
            base.push(ChessMove::RegularMove(Move { origin: *origin, destination: ahead_one }));
            if ahead_two.is_in_bounds() && origin.y == color.homerow() + forward && piece_at(
                &self.board,
                &ahead_two,
            ).is_none() {
                base.push(ChessMove::PawnSkip(Move { origin: *origin, destination: ahead_two }));
            }
        }
        assert(base@ =~= self@.pawn_pushes(*origin, *color));
        base
    }

    /// The pawn moves before promotions are spelled out.
    fn pawn_base_from(&self, origin: &Coords, color: &PieceColor) -> (r: Vec<ChessMove>)
        requires
            self@.wf(),
            origin.in_bounds(),
            sq(origin.x as int, origin.y + color.forward()).in_bounds(),
        ensures
            r@ == self@.pawn_base_moves(*origin, *color),
            all_in_bounds(r@),
    {
        let mut base = self.pawn_pushes_from(origin, color);
        let ghost pushes = base@;
        let diagonals = Position::pawn_attacked_squares(origin, color);
        if let Some(capture) = self.pawn_capture_onto(origin, color, diagonals[0]) {
            base.push(capture);
        }
        let ghost one_side = base@;
        assert(one_side =~= pushes + self@.pawn_capture(*origin, *color, 1));
        if let Some(capture) = self.pawn_capture_onto(origin, color, diagonals[1]) {
            base.push(capture);
        }
        assert(base@ =~= one_side + self@.pawn_capture(*origin, *color, -1));
        if let Some(en_passant) = self.en_passant_from(origin, color) {
            base.push(en_passant);
        }
        assert(base@ =~= self@.pawn_base_moves(*origin, *color));
        base
    }

    /// `base` with every regular move onto the last rank of `color`'s
    /// opponent turned into the four promotions.
    fn promote_all(base: &Vec<ChessMove>, color: &PieceColor) -> (r: Vec<ChessMove>)
        requires
            all_in_bounds(base@),
        ensures
            r@ == expand_promotions(base@, *color),
            all_in_bounds(r@),
    {
        let kinds = PieceKind::promoteable();
        let mut moves: Vec<ChessMove> = Vec::new();
        let mut i: usize = 0;
        while i < base.len()
            invariant
                i <= base@.len(),
                kinds@ == promotable_kinds(),
                moves@ == expand_promotions(base@.subrange(0, i as int), *color),
                all_in_bounds(base@),
                all_in_bounds(moves@),
            decreases base@.len() - i,
        {
            let pawn_move = base[i];
            let ghost before = moves@;
            match pawn_move {
                ChessMove::RegularMove(movement) => {
                    if movement.destination.y == color.opposite().homerow() {
                        let mut j: usize = 0;
                        while j < 4
                            invariant
                                j <= 4,
                                kinds@ == promotable_kinds(),
                                moves@ == before + promotable_kinds().subrange(0, j as int).map_values(
                                    |kd: PieceKind| ChessMove::Promotion(movement, kd),
                                ),
                                all_in_bounds(moves@),
                                move_in_bounds(pawn_move),
                                pawn_move == ChessMove::RegularMove(movement),
                            decreases 4 - j,
                        {
                            moves.push(ChessMove::Promotion(movement, kinds[j]));
                            assert(moves@ =~= before + promotable_kinds().subrange(0, j + 1).map_values(
                                |kd: PieceKind| ChessMove::Promotion(movement, kd),
                            ));
                            j = j + 1;
                        }
                        assert(promotable_kinds().subrange(0, 4) =~= promotable_kinds());
                    } else {
                        moves.push(pawn_move);
                    }
                },
                _ => {
                    moves.push(pawn_move);
                },
            }
            assert(base@.subrange(0, i + 1).drop_last() =~= base@.subrange(0, i as int));
            assert(moves@ =~= expand_promotions(base@.subrange(0, i + 1), *color));
            i = i + 1;
        }
        assert(base@.subrange(0, base@.len() as int) =~= base@);
        moves
    }

    /// Castling on the king's side (`king_side`) or the queen's is open to `color`.
    fn castle_open(&self, color: &PieceColor, king_side: bool) -> (r: bool)
        requires
            self@.wf(),
        ensures
            r == self@.castle_open(*color, king_side),
    {
        let row = color.homerow();
        let right = if king_side {
            self.can_castle_king_side(color)
        } else {
            self.can_castle_queen_side(color)
        };
        if !right {
            return false;
        }
        let king = Some(Piece { kind: PieceKind::King, color: *color });
        let rook = Some(Piece { kind: PieceKind::Rook, color: *color });
        let rook_file: isize = if king_side { 7 } else { 0 };
        if piece_at(&self.board, &Coords { y: row, x: 4 }) != king || piece_at(
            &self.board,
            &Coords { y: row, x: rook_file },
        ) != rook {
            return false;
        }
        let between_empty = if king_side {
            piece_at(&self.board, &Coords { y: row, x: 5 }).is_none() && piece_at(
                &self.board,
                &Coords { y: row, x: 6 },
            ).is_none()
        } else {
            piece_at(&self.board, &Coords { y: row, x: 3 }).is_none() && piece_at(
                &self.board,
                &Coords { y: row, x: 2 },
            ).is_none() && piece_at(&self.board, &Coords { y: row, x: 1 }).is_none()
        };
        let transit: isize = if king_side { 5 } else { 3 };
        let landing: isize = if king_side { 6 } else { 2 };
        let opponent = color.opposite();
        between_empty && !self.is_attacked_by(&opponent, &Coords { y: row, x: 4 })
            && !self.is_attacked_by(&opponent, &Coords { y: row, x: transit })
            && !self.is_attacked_by(&opponent, &Coords { y: row, x: landing })
    }

    /// The king's steps, then castling on the king's side, then on the queen's.
    fn king_movement(&self, origin: &Coords, origin_color: &PieceColor) -> (r: Vec<ChessMove>)
        requires
            self@.wf(),
            origin.in_bounds(),
        ensures
            r@ == self@.king_moves(*origin, *origin_color),
            all_in_bounds(r@),
    {
        proof {
            lemma_short_all_dirs();
        }
        let mut moves = self.projected_movement(origin, &eight_degrees(), origin_color, Some(1));
        if self.castle_open(origin_color, true) {
            moves.push(ChessMove::CastleRight);
        }
        if self.castle_open(origin_color, false) {
            moves.push(ChessMove::CastleLeft);
        }
        assert(moves@ =~= self@.king_moves(*origin, *origin_color));
        moves
    }

    /// The moves of `piece` standing on `origin`, before the check filter.
    fn movement_from_origin(&self, origin: &Coords, piece: Piece) -> (r: Vec<ChessMove>)
        requires
            self@.wf(),
            origin.in_bounds(),
        ensures
            r@ == self@.piece_moves(*origin, piece),
            all_in_bounds(r@),
    {
        match piece.kind {
            PieceKind::Pawn => self.pawn_from(origin, &piece.color),
            PieceKind::Rook => self.rook_from(origin, &piece.color),
            PieceKind::Knight => self.knight_from(origin, &piece.color),
            PieceKind::Bishop => self.bishop_from(origin, &piece.color),
            PieceKind::Queen => self.queen_movement(origin, &piece.color),
            PieceKind::King => self.king_movement(origin, &piece.color),
        }
    }

    /// The pseudo-legal moves from `origin`: none unless a piece of the side
    /// to move stands there.
    fn possible_moves_from_origin(&self, origin: &Coords) -> (r: Vec<ChessMove>)
        requires
            self@.wf(),
        ensures
            r@ == self@.possible(*origin),
            all_in_bounds(r@),
    {
        if !origin.is_in_bounds() {
            return Vec::new();
        }
        match piece_at(&self.board, origin) {
            None => Vec::new(),
            Some(piece) => {
                if piece.color == self.to_move {
                    self.movement_from_origin(origin, piece)
                } else {
                    Vec::new()
                }
            },
        }
    }

    /// Playing `chess_move` leaves the mover's king attacked.
    pub fn opens_own_king(&self, chess_move: &ChessMove) -> (r: bool)
        requires
            self@.wf(),
            move_in_bounds(*chess_move),
        ensures
            r == self@.after(*chess_move).in_check(self.to_move),
    {
        let potential_position = self.after_move(chess_move);
        potential_position.is_in_check(&self.to_move)
    }

    /// The legal moves of the piece on `origin`, in the order they are generated.
    pub fn legal_moves_from_origin(&self, origin: &Coords) -> (r: Vec<ChessMove>)
        requires
            self@.wf(),
        ensures
            r@ == self@.legal(*origin),
            all_in_bounds(r@),
    {
        let possible = self.possible_moves_from_origin(origin);
        let mut legal: Vec<ChessMove> = Vec::new();
        let mut i: usize = 0;
        while i < possible.len()
            invariant
                self@.wf(),
                i <= possible@.len(),
                all_in_bounds(possible@),
                legal@ == self@.keep_legal(possible@.subrange(0, i as int)),
                all_in_bounds(legal@),
            decreases possible@.len() - i,
        {
            let chess_move = possible[i];
            assert(possible@.subrange(0, i + 1).drop_last() =~= possible@.subrange(0, i as int));
            if !self.opens_own_king(&chess_move) {
                legal.push(chess_move);
            } else {
                assert(legal@ + seq![] =~= legal@);
            }
            i = i + 1;
        }
        assert(possible@.subrange(0, possible@.len() as int) =~= possible@);
        legal
    }

    /// Every legal move of the side to move, square by square in rank-major order.
    pub fn all_legal_moves(&self) -> (r: Vec<ChessMove>)
        requires
            self@.wf(),
        ensures
            r@ == self@.all_legal(),
            all_in_bounds(r@),
    {
        let squares = all_squares();
        let mut moves: Vec<ChessMove> = Vec::new();
        let mut k: usize = 0;
        while k < 64
            invariant
                self@.wf(),
                k <= 64,
                squares@.len() == 64,
                forall|i: int| 0 <= i < 64 ==> #[trigger] squares@[i] == square_of_index(i),
                moves@ == self@.legal_upto(k as int),
                all_in_bounds(moves@),
            decreases 64 - k,
        {
            let from_square = self.legal_moves_from_origin(&squares[k]);
            let ghost before = moves@;
            let mut j: usize = 0;
            while j < from_square.len()
                invariant
                    j <= from_square@.len(),
                    moves@ == before + from_square@.subrange(0, j as int),
                    all_in_bounds(moves@),
                    all_in_bounds(from_square@),
                decreases from_square@.len() - j,
            {
                moves.push(from_square[j]);
                assert(moves@ =~= before + from_square@.subrange(0, j + 1));
                j = j + 1;
            }
            assert(from_square@.subrange(0, from_square@.len() as int) =~= from_square@);
            k = k + 1;
        }
        moves
    }

    /// Every pseudo-legal move of the side to move, square by square.
    pub fn all_possible_moves(&self) -> (r: Vec<ChessMove>)
        requires
            self@.wf(),
        ensures
            r@ == self@.possible_upto(64),
            all_in_bounds(r@),
    {
        let squares = all_squares();
        let mut moves: Vec<ChessMove> = Vec::new();
        let mut k: usize = 0;
        while k < 64
            invariant
                self@.wf(),
                k <= 64,
                squares@.len() == 64,
                forall|i: int| 0 <= i < 64 ==> #[trigger] squares@[i] == square_of_index(i),
                moves@ == self@.possible_upto(k as int),
                all_in_bounds(moves@),
            decreases 64 - k,
        {
            let from_square = self.possible_moves_from_origin(&squares[k]);
            let ghost before = moves@;
            let mut j: usize = 0;
            while j < from_square.len()
                invariant
                    j <= from_square@.len(),
                    moves@ == before + from_square@.subrange(0, j as int),
                    all_in_bounds(moves@),
                    all_in_bounds(from_square@),
                decreases from_square@.len() - j,
            {
                moves.push(from_square[j]);
                assert(moves@ =~= before + from_square@.subrange(0, j + 1));
                j = j + 1;
            }
            assert(from_square@.subrange(0, from_square@.len() as int) =~= from_square@);
            k = k + 1;
        }
        moves
    }

    /// `chess_move` is among the legal moves from its origin square (for
    /// castling, the king's home square).
    pub fn is_move_legal(&self, chess_move: &ChessMove) -> (r: bool)
        requires
            self@.wf(),
        ensures
            r == self@.is_legal(*chess_move),
            r ==> move_in_bounds(*chess_move),
    {
        let origin = match chess_move {
            ChessMove::RegularMove(movement) => movement.origin,
            ChessMove::PawnSkip(movement) => movement.origin,
            ChessMove::EnPassant(movement, _) => movement.origin,
            ChessMove::CastleRight | ChessMove::CastleLeft => Coords { y: self.to_move.homerow(), x: 4 },
            ChessMove::Promotion(movement, _) => movement.origin,
        };
        assert(origin == self@.origin_of(*chess_move));
        let legal = self.legal_moves_from_origin(&origin);
        let mut i: usize = 0;
        while i < legal.len()
            invariant
                i <= legal@.len(),
                forall|j: int| 0 <= j < i ==> legal@[j] != *chess_move,
                legal@ == self@.legal(origin),
                origin == self@.origin_of(*chess_move),
                all_in_bounds(legal@),
            decreases legal@.len() - i,
        {
            if legal[i] == *chess_move {
                assert(legal@[i as int] == *chess_move);
                assert(legal@.contains(*chess_move));
                return true;
            }
            i = i + 1;
        }
        false
    }

    /// The side to move is in check and has no legal move.
    pub fn is_checkmate(&self) -> (r: bool)
        requires
            self@.wf(),
        ensures
            r == self@.checkmate(),
    {
        self.is_in_check(&self.to_move) && self.all_legal_moves().len() == 0
    }

    /// The side to move, if it is checkmated.
    pub fn checkmated(&self) -> (r: Option<PieceColor>)
        requires
            self@.wf(),
        ensures
            r == if self@.checkmate() {
                Some(self.to_move)
            } else {
                None
            },
    {
        if self.is_checkmate() {
            Some(self.to_move)
        } else {
            None
        }
    }

    /// The side to move is not in check and has no legal move.
    pub fn is_stalemate(&self) -> (r: bool)
        requires
            self@.wf(),
        ensures
            r == self@.stalemate(),
    {
        self.all_legal_moves().len() == 0 && !self.is_in_check(&self.to_move)
    }
}

} // verus!
