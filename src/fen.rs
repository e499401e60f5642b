use vstd::prelude::*;
use crate::coords::{is_square_name, square_named, Coords};
use crate::piece::{piece_of_letter, Piece, PieceColor, PieceKind};
use crate::position::Position;
use crate::rules::{grid_of, grid_wf, Grid, PositionView};
use crate::text::chars_of;

verus! {

/// The pieces of text of `s` between single spaces (an empty piece between
/// two adjacent spaces).
pub open spec fn split_on_spaces(s: Seq<char>) -> Seq<Seq<char>>
    decreases s.len(),
{
    if s.len() == 0 {
        seq![seq![]]
    } else {
        let f = split_on_spaces(s.drop_last());
        if s.last() == ' ' {
            f.push(seq![])
        } else {
            f.update(f.len() - 1, f.last().push(s.last()))
        }
    }
}

pub open spec fn texts_of(v: Vec<Vec<char>>) -> Seq<Seq<char>> {
    v@.map_values(|r: Vec<char>| r@)
}

/// `n` empty squares.
pub open spec fn empties(n: nat) -> Seq<Option<Piece>>
    decreases n,
{
    if n == 0 {
        seq![]
    } else {
        empties((n - 1) as nat).push(None)
    }
}

/// Where reading the placement field has got to: whether it is still well
/// formed, and the rows read so far.
pub struct PlacementState {
    pub ok: bool,
    pub rows: Grid,
}

/// Reads one character of the placement field: a digit from 1 to 8 adds that
/// many empty squares to the current row, `/` starts a new row (at most
/// eight), a piece letter adds that piece; anything else is an error.
pub open spec fn placement_step(st: PlacementState, c: char) -> PlacementState {
    if !st.ok {
        st
    } else if '1' <= c <= '8' {
        PlacementState {
            ok: true,
            rows: st.rows.update(
                st.rows.len() - 1,
                st.rows.last() + empties((c as int - '0' as int) as nat),
            ),
        }
    } else if c == '/' {
        if st.rows.len() < 8 {
            PlacementState { ok: true, rows: st.rows.push(seq![]) }
        } else {
            PlacementState { ok: false, rows: st.rows }
        }
    } else {
        match piece_of_letter(c) {
            Some(p) => PlacementState {
                ok: true,
                rows: st.rows.update(st.rows.len() - 1, st.rows.last().push(Some(p))),
            },
            None => PlacementState { ok: false, rows: st.rows },
        }
    }
}

pub open spec fn placement_state(p: Seq<char>) -> PlacementState
    decreases p.len(),
{
    if p.len() == 0 {
        PlacementState { ok: true, rows: seq![seq![]] }
    } else {
        placement_step(placement_state(p.drop_last()), p.last())
    }
}

/// The placement field reads as eight rows of eight squares.
pub open spec fn placement_valid(p: Seq<char>) -> bool {
    placement_state(p).ok && grid_wf(placement_state(p).rows)
}

/// `s` is a position record: six fields, a valid placement, `w` or `b`, and
/// `-` or a square name for the en-passant target. The castling field is read
/// for the letters it holds; the last two fields are not read.
pub open spec fn valid_fen(s: Seq<char>) -> bool {
    let f = split_on_spaces(s);
    &&& f.len() == 6
    &&& placement_valid(f[0])
    &&& f[1] == seq!['w'] || f[1] == seq!['b']
    &&& f[3] == seq!['-'] || is_square_name(f[3])
}

/// The position that a valid record `s` describes.
pub open spec fn fen_view(s: Seq<char>) -> PositionView {
    let f = split_on_spaces(s);
    PositionView {
        board: placement_state(f[0]).rows,
        to_move: if f[1] == seq!['w'] {
            PieceColor::White
        } else {
            PieceColor::Black
        },
        white_queen_side: f[2].contains('Q'),
        white_king_side: f[2].contains('K'),
        black_queen_side: f[2].contains('q'),
        black_king_side: f[2].contains('k'),
        en_passant_on: if f[3] == seq!['-'] {
            None
        } else {
            Some(square_named(f[3]))
        },
    }
}

/// The fields of `s` between single spaces.
fn split_fields(s: &Vec<char>) -> (r: Vec<Vec<char>>)
    ensures
        texts_of(r) == split_on_spaces(s@),
{
    let mut fields: Vec<Vec<char>> = vec![Vec::new()];
    assert(texts_of(fields) =~= split_on_spaces(s@.subrange(0, 0)));
    let mut i: usize = 0;
    while i < s.len()
        invariant
            i <= s@.len(),
            fields@.len() >= 1,
            texts_of(fields) == split_on_spaces(s@.subrange(0, i as int)),
        decreases s@.len() - i,
    {
        let c = s[i];
        assert(s@.subrange(0, i + 1).drop_last() =~= s@.subrange(0, i as int));
        let ghost before = texts_of(fields);
        if c == ' ' {
            fields.push(Vec::new());
            assert(texts_of(fields) =~= before.push(seq![]));
        } else {
            let last = fields.len() - 1;
            assert(before[last as int] == fields@[last as int]@);
            fields[last].push(c);
            assert(texts_of(fields) =~= before.update(last as int, before[last as int].push(c)));
        }
        i = i + 1;
    }
    assert(s@.subrange(0, s@.len() as int) =~= s@);
    fields
}

/// Whether `v` holds `c`.
fn has_char(v: &Vec<char>, c: char) -> (r: bool)
    ensures
        r == v@.contains(c),
{
    let mut i: usize = 0;
    while i < v.len()
        invariant
            i <= v@.len(),
            forall|j: int| 0 <= j < i ==> v@[j] != c,
        decreases v@.len() - i,
    {
        if v[i] == c {
            assert(v@[i as int] == c);
            return true;
        }
        i = i + 1;
    }
    false
}

/// The piece a board-text letter stands for, if any.
fn letter_piece(c: char) -> (r: Option<Piece>)
    ensures
        r == piece_of_letter(c),
{
    let color = if 'a' <= c && c <= 'z' {
        PieceColor::Black
    } else {
        PieceColor::White
    };
    let kind = if c == 'p' || c == 'P' {
        PieceKind::Pawn
    } else if c == 'r' || c == 'R' {
        PieceKind::Rook
    } else if c == 'n' || c == 'N' {
        PieceKind::Knight
    } else if c == 'b' || c == 'B' {
        PieceKind::Bishop
    } else if c == 'q' || c == 'Q' {
        PieceKind::Queen
    } else if c == 'k' || c == 'K' {
        PieceKind::King
    } else {
        return None;
    };
    Some(Piece { kind, color })
}

/// The rows that the placement field `p` describes, or `None` where it is
/// not eight rows of eight squares.
pub fn parse_placement(p: &Vec<char>) -> (r: Option<Vec<Vec<Option<Piece>>>>)
    ensures
        r is Some <==> placement_valid(p@),
        r matches Some(b) ==> grid_of(b) == placement_state(p@).rows,
{
    let mut rows: Vec<Vec<Option<Piece>>> = vec![Vec::new()];
    assert(grid_of(rows) =~= placement_state(p@.subrange(0, 0)).rows);
    let mut i: usize = 0;
    while i < p.len()
        invariant
            i <= p@.len(),
            1 <= rows@.len() <= 8,
            placement_state(p@.subrange(0, i as int)).ok,
            grid_of(rows) == placement_state(p@.subrange(0, i as int)).rows,
        decreases p@.len() - i,
    {
        let c = p[i];
        assert(p@.subrange(0, i + 1).drop_last() =~= p@.subrange(0, i as int));
        let ghost before = grid_of(rows);
        let last = rows.len() - 1;
        assert(before[last as int] == rows@[last as int]@);
        if '1' <= c && c <= '8' {
            let n = c as u32 - '0' as u32;
            let mut j: u32 = 0;
            while j < n
                invariant
                    j <= n,
                    rows@.len() == before.len(),
                    last == rows@.len() - 1,
                    forall|k: int| 0 <= k < last ==> rows@[k]@ == before[k],
                    rows@[last as int]@ == before[last as int] + empties(j as nat),
                decreases n - j,
            {
                rows[last].push(None);
                assert(rows@[last as int]@ =~= before[last as int] + empties((j + 1) as nat));
                j = j + 1;
            }
            assert(grid_of(rows) =~= before.update(
                last as int,
                before[last as int] + empties(n as nat),
            ));
        } else if c == '/' {
            if rows.len() >= 8 {
                proof {
                    lemma_placement_stays_bad(p@, i as int + 1);
                }
                return None;
            }
            rows.push(Vec::new());
            assert(grid_of(rows) =~= before.push(seq![]));
        } else {
            match letter_piece(c) {
                Some(piece) => {
                    rows[last].push(Some(piece));
                    assert(grid_of(rows) =~= before.update(
                        last as int,
                        before[last as int].push(Some(piece)),
                    ));
                },
                None => {
                    proof {
                        lemma_placement_stays_bad(p@, i as int + 1);
                    }
                    return None;
                },
            }
        }
        i = i + 1;
    }
    assert(p@.subrange(0, p@.len() as int) =~= p@);
    assert(grid_of(rows) == placement_state(p@).rows);
    if rows.len() != 8 {
        return None;
    }
    let mut k: usize = 0;
    while k < 8
        invariant
            k <= 8,
            rows@.len() == 8,
            forall|j: int| 0 <= j < k ==> rows@[j]@.len() == 8,
            grid_of(rows) == placement_state(p@).rows,
        decreases 8 - k,
    {
        if rows[k].len() != 8 {
            assert(grid_of(rows)[k as int] == rows@[k as int]@);
            return None;
        }
        k = k + 1;
    }
    assert forall|j: int| 0 <= j < 8 implies (#[trigger] grid_of(rows)[j]).len() == 8 by {
        assert(grid_of(rows)[j] == rows@[j]@);
    }
    Some(rows)
}

/// Once reading the placement field has failed, it stays failed.
proof fn lemma_placement_stays_bad(p: Seq<char>, i: int)
    requires
        0 <= i <= p.len(),
        !placement_state(p.subrange(0, i)).ok,
    ensures
        !placement_state(p).ok,
    decreases p.len() - i,
{
    if i < p.len() {
        assert(p.subrange(0, i + 1).drop_last() =~= p.subrange(0, i));
        lemma_placement_stays_bad(p, i + 1);
    } else {
        assert(p.subrange(0, i) =~= p);
    }
}

impl Position {
    /// The position a record describes, or `None` where the record is malformed.
    pub fn parse_fen(fen_record: &str) -> (r: Option<Position>)
        ensures
            r is Some <==> valid_fen(fen_record@),
            r matches Some(p) ==> p@ == fen_view(fen_record@) && p@.wf(),
    {
        let chars = chars_of(fen_record);
        let fields = split_fields(&chars);
        if fields.len() != 6 {
            return None;
        }
        proof {
            assert forall|j: int| 0 <= j < 6 implies #[trigger] texts_of(fields)[j] == fields@[j]@ by {}
        }
        let board = match parse_placement(&fields[0]) {
            Some(b) => b,
            None => {
                return None;
            },
        };
        if fields[1].len() != 1 {
            return None;
        }
        let to_move = if fields[1][0] == 'w' {
            PieceColor::White
        } else if fields[1][0] == 'b' {
            PieceColor::Black
        } else {
            return None;
        };
        assert(fields@[1]@ == seq!['w'] <==> fields@[1]@ =~= seq!['w']);
        assert(fields@[1]@ == seq!['b'] <==> fields@[1]@ =~= seq!['b']);
        let ep_field = &fields[3];
        let en_passant_on = if ep_field.len() == 1 && ep_field[0] == '-' {
            assert(ep_field@ =~= seq!['-']);
            None
        } else if ep_field.len() == 2 && 'a' <= ep_field[0] && ep_field[0] <= 'h' && '1'
            <= ep_field[1] && ep_field[1] <= '8' {
            Some(
                Coords {
                    x: (ep_field[0] as u32 - 'a' as u32) as isize,
                    y: ('8' as u32 - ep_field[1] as u32) as isize,
                },
            )
        } else {
            assert(!(ep_field@ == seq!['-']));
            return None;
        };
        let castling = &fields[2];
        Some(
            Position {
                board,
                to_move,
                white_can_castle_queen_side: has_char(castling, 'Q'),
                white_can_castle_king_side: has_char(castling, 'K'),
                black_can_castle_queen_side: has_char(castling, 'q'),
                black_can_castle_king_side: has_char(castling, 'k'),
                en_passant_on,
            },
        )
    }

    /// The position a well-formed record describes: six space-separated
    /// fields (placement, side to move, castling rights, en-passant target,
    /// and two counters that are not read).
    pub fn from_fen(fen_record: &str) -> (r: Position)
        requires
            valid_fen(fen_record@),
        ensures
            r@ == fen_view(fen_record@),
            r@.wf(),
    {
        match Position::parse_fen(fen_record) {
            Some(p) => p,
            None => Position::empty_board(),
        }
    }
}

} // verus!
