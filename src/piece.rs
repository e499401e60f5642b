use vstd::prelude::*;

verus! {

/// The six kinds of chess pieces.
#[derive(Copy, Clone, PartialEq, Eq, Debug, Hash, Structural)]
pub enum PieceKind {
    Pawn,
    Rook,
    Knight,
    Bishop,
    Queen,
    King,
}

/// The two sides.
#[derive(Copy, Clone, PartialEq, Eq, Debug, Hash, Structural)]
pub enum PieceColor {
    Black,
    White,
}

/// A piece: its kind and the side that owns it.
#[derive(Copy, Clone, PartialEq, Eq, Debug, Hash, Structural)]
pub struct Piece {
    pub kind: PieceKind,
    pub color: PieceColor,
}

/// The kinds on a back rank, from file a to file h.
pub open spec fn back_rank() -> Seq<PieceKind> {
    seq![
        PieceKind::Rook,
        PieceKind::Knight,
        PieceKind::Bishop,
        PieceKind::Queen,
        PieceKind::King,
        PieceKind::Bishop,
        PieceKind::Knight,
        PieceKind::Rook,
    ]
}

/// The piece that stands on square `n` (`rank * 8 + file`, rank 0 being
/// black's back rank) when a game starts: black's back rank and pawns on the
/// first two ranks, white's pawns and back rank on the last two.
pub open spec fn initial_piece(n: int) -> Option<Piece> {
    if 0 <= n < 8 {
        Some(Piece { kind: back_rank()[n], color: PieceColor::Black })
    } else if 8 <= n < 16 {
        Some(Piece { kind: PieceKind::Pawn, color: PieceColor::Black })
    } else if 48 <= n < 56 {
        Some(Piece { kind: PieceKind::Pawn, color: PieceColor::White })
    } else if 56 <= n < 64 {
        Some(Piece { kind: back_rank()[n - 56], color: PieceColor::White })
    } else {
        None
    }
}

/// The letter of a kind in board text, in lower case.
pub open spec fn kind_letter(k: PieceKind) -> char {
    match k {
        PieceKind::Pawn => 'p',
        PieceKind::Rook => 'r',
        PieceKind::Knight => 'n',
        PieceKind::Bishop => 'b',
        PieceKind::Queen => 'q',
        PieceKind::King => 'k',
    }
}

/// The letter of a piece in board text: upper case for white, lower case for black.
pub open spec fn piece_letter(p: Piece) -> char {
    match p.color {
        PieceColor::Black => kind_letter(p.kind),
        PieceColor::White => match p.kind {
            PieceKind::Pawn => 'P',
            PieceKind::Rook => 'R',
            PieceKind::Knight => 'N',
            PieceKind::Bishop => 'B',
            PieceKind::Queen => 'Q',
            PieceKind::King => 'K',
        },
    }
}

/// The piece that a board-text letter stands for, if any.
pub open spec fn piece_of_letter(c: char) -> Option<Piece> {
    let color = if 'a' <= c <= 'z' { PieceColor::Black } else { PieceColor::White };
    let lower = if c == 'P' { 'p' } else if c == 'R' { 'r' } else if c == 'N' { 'n' }
        else if c == 'B' { 'b' } else if c == 'Q' { 'q' } else if c == 'K' { 'k' } else { c };
    if lower == 'p' {
        Some(Piece { kind: PieceKind::Pawn, color })
    } else if lower == 'r' {
        Some(Piece { kind: PieceKind::Rook, color })
    } else if lower == 'n' {
        Some(Piece { kind: PieceKind::Knight, color })
    } else if lower == 'b' {
        Some(Piece { kind: PieceKind::Bishop, color })
    } else if lower == 'q' {
        Some(Piece { kind: PieceKind::Queen, color })
    } else if lower == 'k' {
        Some(Piece { kind: PieceKind::King, color })
    } else {
        None
    }
}

impl Piece {
    /// The piece on square `square_number` of the initial position, if any.
    pub fn from_initial_position(square_number: usize) -> (r: Option<Piece>)
        ensures
            r == initial_piece(square_number as int),
    {
        let black = PieceColor::Black;
        let white = PieceColor::White;
        if square_number == 0 || square_number == 7 {
            Some(Piece { kind: PieceKind::Rook, color: black })
        } else if square_number == 1 || square_number == 6 {
            Some(Piece { kind: PieceKind::Knight, color: black })
        } else if square_number == 2 || square_number == 5 {
            Some(Piece { kind: PieceKind::Bishop, color: black })
        } else if square_number == 3 {
            Some(Piece { kind: PieceKind::Queen, color: black })
        } else if square_number == 4 {
            Some(Piece { kind: PieceKind::King, color: black })
        } else if 8 <= square_number && square_number <= 15 {
            Some(Piece { kind: PieceKind::Pawn, color: black })
        } else if 48 <= square_number && square_number <= 55 {
            Some(Piece { kind: PieceKind::Pawn, color: white })
        } else if square_number == 56 || square_number == 63 {
            Some(Piece { kind: PieceKind::Rook, color: white })
        } else if square_number == 57 || square_number == 62 {
            Some(Piece { kind: PieceKind::Knight, color: white })
        } else if square_number == 58 || square_number == 61 {
            Some(Piece { kind: PieceKind::Bishop, color: white })
        } else if square_number == 59 {
            Some(Piece { kind: PieceKind::Queen, color: white })
        } else if square_number == 60 {
            Some(Piece { kind: PieceKind::King, color: white })
        } else {
            None
        }
    }

    /// The letter of this piece in board text.
    pub fn to_fen_char(&self) -> (r: char)
        ensures
            r == piece_letter(*self),
            piece_of_letter(r) == Some(*self),
    {
        let lower = match self.kind {
            PieceKind::Pawn => 'p',
            PieceKind::Rook => 'r',
            PieceKind::Knight => 'n',
            PieceKind::Bishop => 'b',
            PieceKind::Queen => 'q',
            PieceKind::King => 'k',
        };
        match self.color {
            PieceColor::Black => lower,
            PieceColor::White => match self.kind {
                PieceKind::Pawn => 'P',
                PieceKind::Rook => 'R',
                PieceKind::Knight => 'N',
                PieceKind::Bishop => 'B',
                PieceKind::Queen => 'Q',
                PieceKind::King => 'K',
            },
        }
    }
}

/// The kinds a pawn may be promoted to, in the order moves are generated.
pub open spec fn promotable_kinds() -> Seq<PieceKind> {
    seq![PieceKind::Rook, PieceKind::Knight, PieceKind::Bishop, PieceKind::Queen]
}

impl PieceKind {
    /// Rook, knight, bishop and queen, in that order.
    pub fn promoteable() -> (r: Vec<PieceKind>)
        ensures
            r@ == promotable_kinds(),
    {
        let r = vec![PieceKind::Rook, PieceKind::Knight, PieceKind::Bishop, PieceKind::Queen];
        assert(r@ =~= promotable_kinds());
        r
    }
}

impl PieceColor {
    pub open spec fn other(self) -> PieceColor {
        match self {
            PieceColor::White => PieceColor::Black,
            PieceColor::Black => PieceColor::White,
        }
    }

    /// The rank of this side's back row.
    pub open spec fn home(self) -> int {
        match self {
            PieceColor::White => 7,
            PieceColor::Black => 0,
        }
    }

    /// The rank step of this side's pawns.
    pub open spec fn forward(self) -> int {
        match self {
            PieceColor::White => -1,
            PieceColor::Black => 1,
        }
    }

    /// The other side.
    pub fn opposite(&self) -> (r: PieceColor)
        ensures
            r == self.other(),
    {
        match self {
            PieceColor::White => PieceColor::Black,
            PieceColor::Black => PieceColor::White,
        }
    }

    /// The rank row of this side's back rank: 7 for white, 0 for black.
    pub fn homerow(&self) -> (r: isize)
        ensures
            r == self.home(),
    {
        match self {
            PieceColor::White => 7,
            PieceColor::Black => 0,
        }
    }

    /// The rank step of this side's pawns: -1 for white, 1 for black.
    pub fn pawn_orientation(&self) -> (r: isize)
        ensures
            r == self.forward(),
    {
        match self {
            PieceColor::White => -1,
            PieceColor::Black => 1,
        }
    }

    /// The side's name.
    pub fn name(&self) -> (r: String)
        ensures
            r@ == match self {
                PieceColor::White => "White"@,
                PieceColor::Black => "Black"@,
            },
    {
        match self {
            PieceColor::White => "White".to_string(),
            PieceColor::Black => "Black".to_string(),
        }
    }

    /// White, then black.
    pub fn both() -> (r: Vec<PieceColor>)
        ensures
            r@ == seq![PieceColor::White, PieceColor::Black],
    {
        let r = vec![PieceColor::White, PieceColor::Black];
        assert(r@ =~= seq![PieceColor::White, PieceColor::Black]);
        r
    }
}

} // verus!
