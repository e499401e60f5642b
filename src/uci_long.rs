use vstd::prelude::*;
use crate::board_manip::{king_at, pawn_at, piece_at};
use crate::chess_move::{ChessMove, Move};
use crate::coords::{is_square_name, sq, square_name, square_named, Coords};
use crate::piece::{kind_letter, PieceColor, PieceKind};
use crate::position::Position;
use crate::rules::{move_in_bounds, PositionView};
use crate::text::{chars_of, string_of_chars};

verus! {

/// The kind a trailing promotion letter names.
pub open spec fn promotion_kind(c: char) -> Option<PieceKind> {
    if c == 'q' {
        Some(PieceKind::Queen)
    } else if c == 'r' {
        Some(PieceKind::Rook)
    } else if c == 'n' {
        Some(PieceKind::Knight)
    } else if c == 'b' {
        Some(PieceKind::Bishop)
    } else {
        None
    }
}

/// `s` is move text: two square names, then at most one promotion letter.
pub open spec fn valid_move_text(s: Seq<char>) -> bool {
    &&& 4 <= s.len() <= 5
    &&& is_square_name(s.subrange(0, 2))
    &&& is_square_name(s.subrange(2, 4))
    &&& s.len() == 5 ==> promotion_kind(s[4]) is Some
}

/// The move that text `s` denotes in position `p`: a promotion when a letter
/// follows; a pawn moving more than one rank is a double push; a pawn landing
/// on the en-passant target captures en passant (the captured pawn stands
/// directly behind the target, one step back along that pawn's forward
/// direction); a
/// king moving two files toward file g castles on the king's side
/// (`CastleRight`), two files toward file c on the queen's side
/// (`CastleLeft`); anything else is a regular move.
pub open spec fn move_of_text(s: Seq<char>, p: PositionView) -> ChessMove {
    let o = square_named(s.subrange(0, 2));
    let d = square_named(s.subrange(2, 4));
    let mv = Move { origin: o, destination: d };
    let pawn = p.at(o) matches Some(q) && q.kind == PieceKind::Pawn;
    let king = p.at(o) matches Some(q) && q.kind == PieceKind::King;
    if s.len() == 5 {
        ChessMove::Promotion(mv, promotion_kind(s[4])->0)
    } else if pawn && (o.y - d.y > 1 || d.y - o.y > 1) {
        ChessMove::PawnSkip(mv)
    } else if pawn && p.en_passant_on == Some(d) {
        ChessMove::EnPassant(mv, sq(d.x as int, d.y - p.at(o)->0.color.forward()))
    } else if king && o.x - d.x == -2 {
        ChessMove::CastleRight
    } else if king && o.x - d.x == 2 {
        ChessMove::CastleLeft
    } else {
        ChessMove::RegularMove(mv)
    }
}

/// What follows the squares in a move's text: the lower-case letter of the
/// new kind for a promotion, nothing otherwise.
pub open spec fn text_suffix(m: ChessMove) -> Seq<char> {
    match m {
        ChessMove::Promotion(_, k) => seq![kind_letter(k)],
        _ => seq![],
    }
}

/// The squares a move is written with: for castling, the king's squares.
pub open spec fn text_squares(m: ChessMove, to_move: PieceColor) -> (Coords, Coords) {
    let row = to_move.home();
    match m {
        ChessMove::RegularMove(mv) => (mv.origin, mv.destination),
        ChessMove::PawnSkip(mv) => (mv.origin, mv.destination),
        ChessMove::EnPassant(mv, _) => (mv.origin, mv.destination),
        ChessMove::Promotion(mv, _) => (mv.origin, mv.destination),
        ChessMove::CastleLeft => (sq(4, row), sq(2, row)),
        ChessMove::CastleRight => (sq(4, row), sq(6, row)),
    }
}

impl ChessMove {
    /// The move as text: origin square, destination square, then for a
    /// promotion the letter of the new kind.
    pub fn to_uci_long(&self, current_position: &Position) -> (r: String)
        requires
            move_in_bounds(*self),
        ensures
            r@ == square_name(text_squares(*self, current_position.to_move).0) + square_name(
                text_squares(*self, current_position.to_move).1,
            ) + text_suffix(*self),
    {
        let row = current_position.to_move.homerow();
        let (origin, destination) = match self {
            ChessMove::RegularMove(movement) | ChessMove::PawnSkip(movement) | ChessMove::Promotion(
                movement,
                _,
            ) | ChessMove::EnPassant(movement, _) => (movement.origin, movement.destination),
            ChessMove::CastleLeft => (Coords { x: 4, y: row }, Coords { x: 2, y: row }),
            ChessMove::CastleRight => (Coords { x: 4, y: row }, Coords { x: 6, y: row }),
        };
        let mut text = chars_of(&origin.to_algebraic());
        let second = chars_of(&destination.to_algebraic());
        text.push(second[0]);
        text.push(second[1]);
        if let ChessMove::Promotion(_, kind) = self {
            let letter = match kind {
                PieceKind::Pawn => 'p',
                PieceKind::Rook => 'r',
                PieceKind::Knight => 'n',
                PieceKind::Bishop => 'b',
                PieceKind::Queen => 'q',
                PieceKind::King => 'k',
            };
            text.push(letter);
        }
        assert(text@ =~= square_name(origin) + square_name(destination) + text_suffix(*self));
        string_of_chars(&text)
    }

    /// The move that `uci_long` denotes in `current_position`.
    pub fn from_uci_long(uci_long: &str, current_position: &Position) -> (r: ChessMove)
        requires
            valid_move_text(uci_long@),
            current_position@.wf(),
        ensures
            r == move_of_text(uci_long@, current_position@),
    {
        let s = chars_of(uci_long);
        let origin = Coords { x: (s[0] as u32 - 'a' as u32) as isize, y: ('8' as u32 - s[1] as u32) as isize };
        let destination = Coords { x: (s[2] as u32 - 'a' as u32) as isize, y: ('8' as u32 - s[3] as u32) as isize };
        assert(origin == square_named(uci_long@.subrange(0, 2)));
        assert(destination == square_named(uci_long@.subrange(2, 4)));
        let movement = Move { origin, destination };
        if s.len() == 5 {
            let letter = s[4];
            let kind = if letter == 'q' {
                PieceKind::Queen
            } else if letter == 'r' {
                PieceKind::Rook
            } else if letter == 'n' {
                PieceKind::Knight
            } else {
                PieceKind::Bishop
            };
            return ChessMove::Promotion(movement, kind);
        }
        let pawn = pawn_at(&current_position.board, &origin);
        let pawn_color = match piece_at(&current_position.board, &origin) {
            Some(piece) => piece.color,
            None => current_position.to_move,
        };
        let king = king_at(&current_position.board, &origin);
        if pawn && movement.y_abs_distance() > 1 {
            ChessMove::PawnSkip(movement)
        } else if pawn && current_position.en_passant_on == Some(destination) {
            ChessMove::EnPassant(
                movement,
                Coords { x: destination.x, y: destination.y - pawn_color.pawn_orientation() },
            )
        } else if king && movement.x_distance() == -2 {
            ChessMove::CastleRight
        } else if king && movement.x_distance() == 2 {
            ChessMove::CastleLeft
        } else {
            ChessMove::RegularMove(movement)
        }
    }
}

} // verus!
