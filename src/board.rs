use vstd::prelude::*;
use crate::coords::{square_of_index, Coords};
use crate::fen::{parse_placement, placement_state, placement_valid};
use crate::piece::{initial_piece, piece_letter, Piece, PieceColor, PieceKind};
use crate::rules::grid_of;
use crate::text::{chars_of, string_of_chars};

verus! {

/// Bit `n` of `number` is set.
pub fn bit_at_nth(number: u64, n: usize) -> (r: bool)
    requires
        n < 64,
    ensures
        r == ((number >> n) & 1u64 == 1u64),
{
    let mask: u64 = 1u64 << (n as u64);
    let r = (mask & number) > 0;
    assert(((1u64 << (n as u64)) & number > 0) == ((number >> (n as u64)) & 1u64 == 1u64)) by (bit_vector)
        requires
            n < 64,
    ;
    r
}

/// The index of square `c` in a board: `8 * rank + file`.
pub open spec fn index_of(c: Coords) -> int {
    c.y * 8 + c.x
}

/// The digit for a run of `n` empty squares.
pub open spec fn digit_char(n: int) -> char {
    ('0' as int + n) as char
}

/// The text of `row` from square `i` on, after a run of `run` empty squares:
/// a digit for each run of empty squares, a letter for each piece.
pub open spec fn row_text_from(row: Seq<Option<Piece>>, i: int, run: int) -> Seq<char>
    decreases row.len() - i,
{
    if i >= row.len() || i < 0 {
        if run > 0 {
            seq![digit_char(run)]
        } else {
            seq![]
        }
    } else {
        match row[i] {
            None => row_text_from(row, i + 1, run + 1),
            Some(p) => (if run > 0 {
                seq![digit_char(run)]
            } else {
                seq![]
            }) + seq![piece_letter(p)] + row_text_from(row, i + 1, 0),
        }
    }
}

/// The placement text of the first `k` rows of `b`, separated by `/`.
pub open spec fn board_text(b: Seq<Option<Piece>>, k: int) -> Seq<char>
    decreases k,
{
    if k <= 0 {
        seq![]
    } else {
        board_text(b, k - 1) + (if k > 1 {
            seq!['/']
        } else {
            seq![]
        }) + row_text_from(b.subrange(8 * (k - 1), 8 * k), 0, 0)
    }
}

/// A board of 64 squares in rank-major order.
#[derive(Clone, Debug, PartialEq)]
pub struct Board {
    squares: Vec<Option<Piece>>,
}

impl View for Board {
    type V = Seq<Option<Piece>>;

    closed spec fn view(&self) -> Seq<Option<Piece>> {
        self.squares@
    }
}

impl Board {
    /// The board has its 64 squares.
    pub open spec fn wf(&self) -> bool {
        self@.len() == 64
    }

    /// The board a game starts from.
    pub fn initial() -> (r: Board)
        ensures
            r.wf(),
            forall|i: int| 0 <= i < 64 ==> #[trigger] r@[i] == initial_piece(i),
    {
        let mut squares: Vec<Option<Piece>> = Vec::new();
        let mut i: usize = 0;
        while i < 64
            invariant
                i <= 64,
                squares@.len() == i,
                forall|k: int| 0 <= k < i ==> #[trigger] squares@[k] == initial_piece(k),
            decreases 64 - i,
        {
            squares.push(Piece::from_initial_position(i));
            i = i + 1;
        }
        Board { squares }
    }

    /// A board with no pieces.
    pub fn empty() -> (r: Board)
        ensures
            r.wf(),
            forall|i: int| 0 <= i < 64 ==> #[trigger] r@[i] is None,
    {
        let mut squares: Vec<Option<Piece>> = Vec::new();
        let mut i: usize = 0;
        while i < 64
            invariant
                i <= 64,
                squares@.len() == i,
                forall|k: int| 0 <= k < i ==> #[trigger] squares@[k] is None,
            decreases 64 - i,
        {
            squares.push(None);
            i = i + 1;
        }
        Board { squares }
    }

    fn index(loc: &Coords) -> (r: usize)
        requires
            loc.in_bounds(),
        ensures
            r == index_of(*loc),
            r < 64,
    {
        (loc.y * 8 + loc.x) as usize
    }

    /// The piece on `loc`, if any.
    pub fn piece_at(&self, loc: &Coords) -> (r: Option<Piece>)
        requires
            self.wf(),
            loc.in_bounds(),
        ensures
            r == self@[index_of(*loc)],
    {
        self.squares[Board::index(loc)]
    }

    /// A pawn stands on `loc`.
    pub fn pawn_at(&self, loc: &Coords) -> (r: bool)
        requires
            self.wf(),
            loc.in_bounds(),
        ensures
            r == (self@[index_of(*loc)] matches Some(p) && p.kind == PieceKind::Pawn),
    {
        match self.piece_at(loc) {
            Some(p) => p.kind == PieceKind::Pawn,
            None => false,
        }
    }

    /// A king stands on `loc`.
    pub fn king_at(&self, loc: &Coords) -> (r: bool)
        requires
            self.wf(),
            loc.in_bounds(),
        ensures
            r == (self@[index_of(*loc)] matches Some(p) && p.kind == PieceKind::King),
    {
        match self.piece_at(loc) {
            Some(p) => p.kind == PieceKind::King,
            None => false,
        }
    }

    /// Whether a black rook stands on `square`.
    pub fn black_rook_at(&self, square: Coords) -> (r: bool)
        requires
            self.wf(),
            square.in_bounds(),
        ensures
            r == (self@[index_of(square)] == Some(
                Piece { kind: PieceKind::Rook, color: PieceColor::Black },
            )),
    {
        self.piece_at(&square) == Some(Piece { kind: PieceKind::Rook, color: PieceColor::Black })
    }

    /// Removes the piece on `loc` and returns it.
    pub fn take_piece_at(&mut self, loc: Coords) -> (r: Option<Piece>)
        requires
            old(self).wf(),
            loc.in_bounds(),
        ensures
            final(self).wf(),
            r == old(self)@[index_of(loc)],
            final(self)@ == old(self)@.update(index_of(loc), None),
    {
        let i = Board::index(&loc);
        let r = self.squares[i];
        self.squares.set(i, None);
        r
    }

    /// Places `piece` on `loc`, replacing whatever stood there.
    pub fn put_piece_at(&mut self, piece: Piece, loc: Coords)
        requires
            old(self).wf(),
            loc.in_bounds(),
        ensures
            final(self).wf(),
            final(self)@ == old(self)@.update(index_of(loc), Some(piece)),
    {
        let i = Board::index(&loc);
        self.squares.set(i, Some(piece));
    }

    /// Moves the piece on `origin`, if any, to `dest`.
    pub fn move_piece(&mut self, origin: Coords, dest: Coords)
        requires
            old(self).wf(),
            origin.in_bounds(),
            dest.in_bounds(),
        ensures
            final(self).wf(),
            final(self)@ == match old(self)@[index_of(origin)] {
                Some(p) => old(self)@.update(index_of(origin), None).update(index_of(dest), Some(p)),
                None => old(self)@,
            },
    {
        let ghost before = self@;
        if let Some(origin_piece) = self.take_piece_at(origin) {
            self.put_piece_at(origin_piece, dest);
        } else {
            assert(self@ =~= before);
        }
    }

    /// The board that a placement field describes.
    pub fn from_fen(fen_board: &str) -> (r: Board)
        requires
            placement_valid(fen_board@),
        ensures
            r.wf(),
            forall|i: int|
                0 <= i < 64 ==> #[trigger] r@[i] == placement_state(fen_board@).rows[i / 8][i % 8],
    {
        let chars = chars_of(fen_board);
        let mut board = Board::empty();
        match parse_placement(&chars) {
            Some(rows) => {
                let mut k: usize = 0;
                while k < 64
                    invariant
                        board.wf(),
                        k <= 64,
                        grid_of(rows) == placement_state(fen_board@).rows,
                        crate::rules::grid_wf(grid_of(rows)),
                        forall|i: int|
                            0 <= i < k ==> #[trigger] board@[i] == placement_state(fen_board@).rows[i / 8][i % 8],
                    decreases 64 - k,
                {
                    let y = k / 8;
                    let x = k % 8;
                    assert(grid_of(rows)[y as int] == rows@[y as int]@);
                    let v = rows[y][x];
                    board.squares.set(k, v);
                    k = k + 1;
                }
            },
            None => {},
        }
        board
    }

    /// The placement text of this board.
    pub fn to_fen(&self) -> (r: String)
        requires
            self.wf(),
        ensures
            r@ == board_text(self@, 8),
    {
        let mut fen: Vec<char> = Vec::new();
        let mut y: usize = 0;
        while y < 8
            invariant
                self.wf(),
                y <= 8,
                fen@ == board_text(self@, y as int),
            decreases 8 - y,
        {
            let ghost before = fen@;
            if y > 0 {
                fen.push('/');
            }
            let ghost row = self@.subrange(8 * y, 8 * y + 8);
            let ghost with_sep = fen@;
            let mut run: usize = 0;
            let mut x: usize = 0;
            while x < 8
                invariant
                    self.wf(),
                    y < 8,
                    x <= 8,
                    run <= x,
                    row == self@.subrange(8 * y, 8 * y + 8),
                    fen@ + row_text_from(row, x as int, run as int) == with_sep + row_text_from(row, 0, 0),
                decreases 8 - x,
            {
                let ghost prefix = fen@;
                match self.squares[y * 8 + x] {
                    None => {
                        assert(row[x as int] is None);
                        run = run + 1;
                    },
                    Some(p) => {
                        assert(row[x as int] == Some(p));
                        if run > 0 {
                            fen.push(('0' as u8 + run as u8) as char);
                        }
                        fen.push(p.to_fen_char());
                        assert(fen@ + row_text_from(row, x + 1, 0) =~= prefix + row_text_from(row, x as int, run as int));
                        run = 0;
                    },
                }
                x = x + 1;
            }
            let ghost prefix = fen@;
            if run > 0 {
                fen.push(('0' as u8 + run as u8) as char);
            }
            assert(fen@ =~= prefix + row_text_from(row, 8, run as int));
            assert(fen@ =~= board_text(self@, y + 1));
            y = y + 1;
        }
        string_of_chars(&fen)
    }
}

} // verus!
