use vstd::prelude::*;

verus! {

/// A square: `x` is the file (0 = a), `y` the rank row (0 = black's back rank).
#[derive(Copy, Clone, PartialEq, Eq, Debug, Hash, Structural)]
pub struct Coords {
    pub x: isize,
    pub y: isize,
}

/// A displacement between squares.
#[derive(Copy, Clone, PartialEq, Eq, Debug, Structural)]
pub struct Direction {
    pub dx: isize,
    pub dy: isize,
}

/// The square at `(x, y)`.
pub open spec fn sq(x: int, y: int) -> Coords {
    Coords { x: x as isize, y: y as isize }
}

/// The square with index `i` in rank-major order.
pub open spec fn square_of_index(i: int) -> Coords {
    sq(i % 8, i / 8)
}

/// The letter of file `x`.
pub open spec fn file_char(x: int) -> char {
    ('a' as u8 + x) as char
}

/// The digit of the rank on row `y`.
pub open spec fn rank_char(y: int) -> char {
    ('8' as u8 - y) as char
}

/// The two-character name of a square, such as `e4`.
pub open spec fn square_name(c: Coords) -> Seq<char> {
    seq![file_char(c.x as int), rank_char(c.y as int)]
}

/// Whether `s` names a square: a file `a`..`h`, then a rank `1`..`8`.
pub open spec fn is_square_name(s: Seq<char>) -> bool {
    s.len() == 2 && 'a' <= s[0] <= 'h' && '1' <= s[1] <= '8'
}

/// The square that a square name denotes.
pub open spec fn square_named(s: Seq<char>) -> Coords {
    sq(s[0] as int - 'a' as int, '8' as int - s[1] as int)
}

pub open spec fn dir(dx: int, dy: int) -> Direction {
    Direction { dx: dx as isize, dy: dy as isize }
}

/// The four diagonal directions.
pub open spec fn diagonal_dirs() -> Seq<Direction> {
    seq![dir(1, 1), dir(-1, -1), dir(-1, 1), dir(1, -1)]
}

/// The four orthogonal directions.
pub open spec fn orthogonal_dirs() -> Seq<Direction> {
    seq![dir(0, 1), dir(0, -1), dir(-1, 0), dir(1, 0)]
}

/// All eight directions: the diagonals, then the orthogonals.
pub open spec fn all_dirs() -> Seq<Direction> {
    diagonal_dirs() + orthogonal_dirs()
}

impl Coords {
    pub open spec fn in_bounds(self) -> bool {
        0 <= self.x < 8 && 0 <= self.y < 8
    }

    /// This square moved by `k` steps of `d`.
    pub open spec fn step(self, d: Direction, k: int) -> Coords {
        sq(self.x + d.dx * k, self.y + d.dy * k)
    }

    /// The square `k` steps of `d` away lies on the board (computed on
    /// unbounded integers).
    pub open spec fn step_on_board(self, d: Direction, k: int) -> bool {
        0 <= self.x + d.dx * k < 8 && 0 <= self.y + d.dy * k < 8
    }

    /// This square moved by `k` steps of `d`, where the result fits the
    /// coordinate type.
    pub open spec fn step_fits(self, d: Direction, k: int) -> bool {
        isize::MIN <= self.x + d.dx * k <= isize::MAX && isize::MIN <= self.y + d.dy * k
            <= isize::MAX
    }

    pub fn is_in_bounds(&self) -> (r: bool)
        ensures
            r == self.in_bounds(),
    {
        self.x < 8 && self.x >= 0 && self.y < 8 && self.y >= 0
    }

    /// The one-based number of a square in rank-major order: a8 is 1, h1 is 64.
    pub fn to_square_number(&self) -> (r: usize)
        requires
            self.in_bounds(),
        ensures
            r == self.x + 1 + self.y * 8,
    {
        (self.x + 1 + self.y * 8) as usize
    }

    /// This square moved by `d`.
    pub fn shifted(&self, d: Direction) -> (r: Coords)
        requires
            self.step_fits(d, 1),
        ensures
            r == self.step(d, 1),
    {
        Coords { x: self.x + d.dx, y: self.y + d.dy }
    }

    /// The name of this square, such as `e4`.
    pub fn to_algebraic(&self) -> (r: String)
        requires
            self.in_bounds(),
        ensures
            r@ == square_name(*self),
    {
        let file = ('a' as u8 + self.x as u8) as char;
        let rank = ('8' as u8 - self.y as u8) as char;
        let v = vec![file, rank];
        assert(v@ =~= square_name(*self));
        crate::text::string_of_chars(&v)
    }

    /// The square that `square` names.
    pub fn from_algebraic(square: &str) -> (r: Coords)
        requires
            is_square_name(square@),
        ensures
            r == square_named(square@),
            r.in_bounds(),
    {
        let file = square.get_char(0);
        let rank = square.get_char(1);
        Coords { x: (file as u8 - 'a' as u8) as isize, y: ('8' as u8 - rank as u8) as isize }
    }
}

impl Direction {
    /// This displacement taken `k` times.
    pub fn times(&self, k: isize) -> (r: Direction)
        requires
            isize::MIN <= self.dx * k <= isize::MAX,
            isize::MIN <= self.dy * k <= isize::MAX,
        ensures
            r.dx == self.dx * k,
            r.dy == self.dy * k,
    {
        Direction { dx: self.dx * k, dy: self.dy * k }
    }
}

/// The 64 squares in rank-major order.
pub fn all_squares() -> (r: Vec<Coords>)
    ensures
        r@.len() == 64,
        forall|i: int| 0 <= i < 64 ==> #[trigger] r@[i] == square_of_index(i),
{
    let mut squares: Vec<Coords> = Vec::new();
    let mut i: isize = 0;
    while i < 8
        invariant
            0 <= i <= 8,
            squares@.len() == i * 8,
            forall|k: int| 0 <= k < i * 8 ==> #[trigger] squares@[k] == square_of_index(k),
        decreases 8 - i,
    {
        let mut j: isize = 0;
        while j < 8
            invariant
                0 <= i < 8,
                0 <= j <= 8,
                squares@.len() == i * 8 + j,
                forall|k: int| 0 <= k < i * 8 + j ==> #[trigger] squares@[k] == square_of_index(k),
            decreases 8 - j,
        {
            squares.push(Coords { y: i, x: j });
            assert(square_of_index(i * 8 + j) == sq(j as int, i as int)) by (nonlinear_arith)
                requires
                    0 <= j < 8,
                    0 <= i < 8,
            {
            }
            j = j + 1;
        }
        i = i + 1;
    }
    squares
}

/// The eight directions: the four diagonals, then up, down, left, right.
pub fn eight_degrees() -> (r: Vec<Direction>)
    ensures
        r@ == all_dirs(),
{
    let r = vec![
        Direction { dy: 1, dx: 1 },
        Direction { dy: -1, dx: -1 },
        Direction { dy: 1, dx: -1 },
        Direction { dy: -1, dx: 1 },
        Direction { dx: 0, dy: 1 },
        Direction { dx: 0, dy: -1 },
        Direction { dx: -1, dy: 0 },
        Direction { dx: 1, dy: 0 },
    ];
    assert(r@ =~= all_dirs());
    r
}

/// The four diagonal directions.
pub fn inter_cards() -> (r: Vec<Direction>)
    ensures
        r@ == diagonal_dirs(),
{
    let r = vec![
        Direction { dy: 1, dx: 1 },
        Direction { dy: -1, dx: -1 },
        Direction { dy: 1, dx: -1 },
        Direction { dy: -1, dx: 1 },
    ];
    assert(r@ =~= diagonal_dirs());
    r
}

/// The four orthogonal directions: up, down, left, right.
pub fn cards() -> (r: Vec<Direction>)
    ensures
        r@ == orthogonal_dirs(),
{
    let r = vec![
        Direction { dx: 0, dy: 1 },
        Direction { dx: 0, dy: -1 },
        Direction { dx: -1, dy: 0 },
        Direction { dx: 1, dy: 0 },
    ];
    assert(r@ =~= orthogonal_dirs());
    r
}

} // verus!
