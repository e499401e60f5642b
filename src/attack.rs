use vstd::prelude::*;
use crate::board_manip::piece_at;
use crate::coords::{all_dirs, cards, diagonal_dirs, eight_degrees, inter_cards, orthogonal_dirs, square_of_index, Coords, Direction};
use crate::piece::{Piece, PieceColor, PieceKind};
use crate::position::Position;
use crate::rules::knight_offsets;

verus! {

/// Every displacement of `ds` moves at most two files and two ranks.
pub open spec fn short_dirs(ds: Seq<Direction>) -> bool {
    forall|i: int| 0 <= i < ds.len() ==> -2 <= (#[trigger] ds[i]).dx <= 2 && -2 <= ds[i].dy <= 2
}

pub proof fn lemma_small_product(d: int, i: int)
    requires
        -2 <= d <= 2,
        0 <= i <= 8,
    ensures
        -16 <= d * i <= 16,
{
    assert(-16 <= d * i <= 16) by (nonlinear_arith)
        requires
            -2 <= d <= 2,
            0 <= i <= 8,
    ;
}

/// The square `k` steps of `d` away from `s`, for a square `s` on the board.
pub fn step_from(s: &Coords, d: Direction, k: isize) -> (r: Coords)
    requires
        s.in_bounds(),
        -2 <= d.dx <= 2,
        -2 <= d.dy <= 2,
        0 <= k <= 8,
    ensures
        r == s.step(d, k as int),
{
    proof {
        lemma_small_product(d.dx as int, k as int);
        lemma_small_product(d.dy as int, k as int);
    }
    Coords { x: s.x + d.dx * k, y: s.y + d.dy * k }
}

/// The knight jumps, in the order moves are generated.
pub fn knight_jumps() -> (r: Vec<Direction>)
    ensures
        r@ == knight_offsets(),
{
    let r = vec![
        Direction { dy: 2, dx: 1 },
        Direction { dy: 2, dx: -1 },
        Direction { dy: 1, dx: 2 },
        Direction { dy: 1, dx: -2 },
        Direction { dy: -2, dx: 1 },
        Direction { dy: -2, dx: -1 },
        Direction { dy: -1, dx: -2 },
        Direction { dy: -1, dx: 2 },
    ];
    assert(r@ =~= knight_offsets());
    r
}

impl Position {
    /// The first piece met along `d` from `s`.
    fn first_piece_along(&self, s: &Coords, d: Direction) -> (r: Option<Piece>)
        requires
            self@.wf(),
            s.in_bounds(),
            -2 <= d.dx <= 2,
            -2 <= d.dy <= 2,
        ensures
            r == self@.first_piece(*s, d, 1),
    {
        let mut i: isize = 1;
        while i < 8
            invariant
                self@.wf(),
                s.in_bounds(),
                -2 <= d.dx <= 2,
                -2 <= d.dy <= 2,
                1 <= i <= 8,
                self@.first_piece(*s, d, 1) == self@.first_piece(*s, d, i as int),
            decreases 8 - i,
        {
            let n = step_from(s, d, i);
            if !n.is_in_bounds() {
                return None;
            }
            match piece_at(&self.board, &n) {
                Some(p) => {
                    return Some(p);
                },
                None => {},
            }
            i = i + 1;
        }
        None
    }

    /// A rook (bishop, with `diagonal`) or queen of `by` is the first piece along one of `dirs`.
    fn slider_attacks(&self, s: &Coords, dirs: &Vec<Direction>, by: PieceColor, diagonal: bool) -> (r: bool)
        requires
            self@.wf(),
            s.in_bounds(),
            short_dirs(dirs@),
        ensures
            r == self@.slider_attack(*s, dirs@, by, diagonal),
    {
        let mut found = false;
        let mut k: usize = 0;
        while k < dirs.len()
            invariant
                self@.wf(),
                s.in_bounds(),
                short_dirs(dirs@),
                k <= dirs@.len(),
                found == self@.slider_attack(*s, dirs@.subrange(0, k as int), by, diagonal),
            decreases dirs@.len() - k,
        {
            let d = dirs[k];
            let hit = match self.first_piece_along(s, d) {
                Some(p) => p.color == by && (p.kind == PieceKind::Queen || p.kind == if diagonal {
                    PieceKind::Bishop
                } else {
                    PieceKind::Rook
                }),
                None => false,
            };
            assert(dirs@.subrange(0, k + 1).drop_last() =~= dirs@.subrange(0, k as int));
            found = found || hit;
            k = k + 1;
        }
        assert(dirs@.subrange(0, dirs@.len() as int) =~= dirs@);
        found
    }

    /// A piece of `kind` and `by` stands one jump of `offs` away from `s`.
    fn jump_attacks(&self, s: &Coords, offs: &Vec<Direction>, by: PieceColor, kind: PieceKind) -> (r: bool)
        requires
            self@.wf(),
            s.in_bounds(),
            short_dirs(offs@),
        ensures
            r == self@.jump_attack(*s, offs@, by, kind),
    {
        let mut found = false;
        let mut k: usize = 0;
        while k < offs.len()
            invariant
                self@.wf(),
                s.in_bounds(),
                short_dirs(offs@),
                k <= offs@.len(),
                found == self@.jump_attack(*s, offs@.subrange(0, k as int), by, kind),
            decreases offs@.len() - k,
        {
            let t = step_from(s, offs[k], 1);
            let hit = t.is_in_bounds() && piece_at(&self.board, &t) == Some(Piece { kind, color: by });
            assert(offs@.subrange(0, k + 1).drop_last() =~= offs@.subrange(0, k as int));
            found = found || hit;
            k = k + 1;
        }
        assert(offs@.subrange(0, offs@.len() as int) =~= offs@);
        found
    }

    /// A pawn of `attacking_color` attacks `square` diagonally.
    pub fn attacked_by_pawn(&self, square: &Coords, attacking_color: &PieceColor) -> (r: bool)
        requires
            self@.wf(),
            square.in_bounds(),
        ensures
            r == self@.pawn_attack(*square, *attacking_color),
    {
        let pawn = Some(Piece { kind: PieceKind::Pawn, color: *attacking_color });
        let r = square.y + attacking_color.opposite().pawn_orientation();
        let right = Coords { x: square.x + 1, y: r };
        let left = Coords { x: square.x - 1, y: r };
        (right.is_in_bounds() && piece_at(&self.board, &right) == pawn) || (left.is_in_bounds()
            && piece_at(&self.board, &left) == pawn)
    }

    /// Square `square` is attacked by side `by`.
    pub fn is_attacked_by(&self, by: &PieceColor, square: &Coords) -> (r: bool)
        requires
            self@.wf(),
            square.in_bounds(),
        ensures
            r == self@.attacked_by(*by, *square),
    {
        let eight = eight_degrees();
        let orthogonal = cards();
        let diagonal = inter_cards();
        let knights = knight_jumps();
        assert(short_dirs(all_dirs())) by {
            assert(all_dirs() =~= diagonal_dirs() + orthogonal_dirs());
        }
        let by_king = self.jump_attacks(square, &eight, *by, PieceKind::King);
        let by_rook_or_queen = self.slider_attacks(square, &orthogonal, *by, false);
        let by_bishop_or_queen = self.slider_attacks(square, &diagonal, *by, true);
        let by_knight = self.jump_attacks(square, &knights, *by, PieceKind::Knight);
        let by_pawn = self.attacked_by_pawn(square, by);
        let by_en_passant = piece_at(&self.board, square) == Some(
            Piece { kind: PieceKind::Pawn, color: by.opposite() },
        ) && match self.en_passant_on {
            Some(t) => t == (Coords { x: square.x, y: square.y + by.pawn_orientation() })
                && self.attacked_by_pawn(&t, by),
            None => false,
        };
        by_king || by_rook_or_queen || by_bishop_or_queen || by_knight || by_pawn || by_en_passant
    }

    /// The first square in rank-major order that holds the king of `color`.
    pub fn king_location(&self, color: &PieceColor) -> (r: Option<Coords>)
        requires
            self@.wf(),
        ensures
            r == self@.king_square(*color),
            r matches Some(l) ==> l.in_bounds(),
    {
        let mut k: usize = 0;
        while k < 64
            invariant
                self@.wf(),
                k <= 64,
                self@.king_square(*color) == self@.king_from(*color, k as int),
            decreases 64 - k,
        {
            let loc = Coords { y: (k / 8) as isize, x: (k % 8) as isize };
            assert(loc == square_of_index(k as int));
            if piece_at(&self.board, &loc) == Some(Piece { kind: PieceKind::King, color: *color }) {
                return Some(loc);
            }
            k = k + 1;
        }
        None
    }

    /// The king of `color` is on the board and attacked.
    pub fn is_in_check(&self, color: &PieceColor) -> (r: bool)
        requires
            self@.wf(),
        ensures
            r == self@.in_check(*color),
    {
        match self.king_location(color) {
            None => false,
            Some(loc) => self.is_attacked_by(&color.opposite(), &loc),
        }
    }
}

} // verus!
