use vstd::prelude::*;
use crate::coords::Coords;
use crate::piece::{Piece, PieceKind};
use crate::rules::{grid_at, grid_moved, grid_of, grid_wf, grid_with};

verus! {

/// The piece on `loc`, if any.
pub fn piece_at(board: &Vec<Vec<Option<Piece>>>, loc: &Coords) -> (r: Option<Piece>)
    requires
        grid_wf(grid_of(*board)),
        loc.in_bounds(),
    ensures
        r == grid_at(grid_of(*board), *loc),
{
    board[loc.y as usize][loc.x as usize]
}

/// A pawn stands on `loc`.
pub fn pawn_at(board: &Vec<Vec<Option<Piece>>>, loc: &Coords) -> (r: bool)
    requires
        grid_wf(grid_of(*board)),
        loc.in_bounds(),
    ensures
        r == (grid_at(grid_of(*board), *loc) matches Some(p) && p.kind == PieceKind::Pawn),
{
    match piece_at(board, loc) {
        Some(p) => p.kind == PieceKind::Pawn,
        None => false,
    }
}

/// A king stands on `loc`.
pub fn king_at(board: &Vec<Vec<Option<Piece>>>, loc: &Coords) -> (r: bool)
    requires
        grid_wf(grid_of(*board)),
        loc.in_bounds(),
    ensures
        r == (grid_at(grid_of(*board), *loc) matches Some(p) && p.kind == PieceKind::King),
{
    match piece_at(board, loc) {
        Some(p) => p.kind == PieceKind::King,
        None => false,
    }
}

/// Sets square `loc` to `v`.
fn set_square(board: &mut Vec<Vec<Option<Piece>>>, loc: Coords, v: Option<Piece>)
    requires
        grid_wf(grid_of(*old(board))),
        loc.in_bounds(),
    ensures
        grid_of(*final(board)) == grid_with(grid_of(*old(board)), loc, v),
        grid_wf(grid_of(*final(board))),
{
    let y = loc.y as usize;
    let x = loc.x as usize;
    let ghost g = grid_of(*board);
    assert(g[y as int] == board@[y as int]@);
    board[y].set(x, v);
    assert(grid_of(*board) =~= grid_with(g, loc, v));
}

/// Removes the piece on `loc` and returns it.
pub fn take_piece_at(board: &mut Vec<Vec<Option<Piece>>>, loc: Coords) -> (r: Option<Piece>)
    requires
        grid_wf(grid_of(*old(board))),
        loc.in_bounds(),
    ensures
        r == grid_at(grid_of(*old(board)), loc),
        grid_of(*final(board)) == grid_with(grid_of(*old(board)), loc, None),
        grid_wf(grid_of(*final(board))),
{
    let r = piece_at(board, &loc);
    set_square(board, loc, None);
    r
}

/// Places `piece` on `loc`, replacing whatever stood there.
pub fn put_piece_at(board: &mut Vec<Vec<Option<Piece>>>, piece: Piece, loc: Coords)
    requires
        grid_wf(grid_of(*old(board))),
        loc.in_bounds(),
    ensures
        grid_of(*final(board)) == grid_with(grid_of(*old(board)), loc, Some(piece)),
        grid_wf(grid_of(*final(board))),
{
    set_square(board, loc, Some(piece));
}

/// Moves the piece on `origin`, if any, to `dest`.
pub fn move_piece(board: &mut Vec<Vec<Option<Piece>>>, origin: Coords, dest: Coords)
    requires
        grid_wf(grid_of(*old(board))),
        origin.in_bounds(),
        dest.in_bounds(),
    ensures
        grid_of(*final(board)) == grid_moved(grid_of(*old(board)), origin, dest),
        grid_wf(grid_of(*final(board))),
{
    let ghost g = grid_of(*board);
    if let Some(origin_piece) = take_piece_at(board, origin) {
        put_piece_at(board, origin_piece, dest);
    } else {
        assert(g[origin.y as int].update(origin.x as int, None) =~= g[origin.y as int]);
        assert(grid_of(*board) =~= g);
    }
}

/// A copy of `board`, square by square.
pub fn copy_board(board: &Vec<Vec<Option<Piece>>>) -> (r: Vec<Vec<Option<Piece>>>)
    ensures
        grid_of(r) == grid_of(*board),
{
    let mut r: Vec<Vec<Option<Piece>>> = Vec::new();
    let mut i: usize = 0;
    while i < board.len()
        invariant
            i <= board@.len(),
            r@.len() == i,
            grid_of(r) == grid_of(*board).subrange(0, i as int),
        decreases board@.len() - i,
    {
        let mut row: Vec<Option<Piece>> = Vec::new();
        let mut j: usize = 0;
        while j < board[i].len()
            invariant
                i < board@.len(),
                j <= board@[i as int]@.len(),
                row@ == board@[i as int]@.subrange(0, j as int),
                grid_of(r) == grid_of(*board).subrange(0, i as int),
                r@.len() == i,
            decreases board@[i as int]@.len() - j,
        {
            row.push(board[i][j]);
            assert(row@ =~= board@[i as int]@.subrange(0, j + 1));
            j = j + 1;
        }
        assert(row@ =~= board@[i as int]@);
        let ghost before = r@;
        let ghost old_grid = grid_of(r);
        r.push(row);
        assert forall|k: int| 0 <= k < i + 1 implies #[trigger] grid_of(r)[k] == grid_of(*board)[k] by {
            if k < i {
                assert(r@[k] == before[k]);
                assert(old_grid[k] == before[k]@);
                assert(old_grid[k] == grid_of(*board).subrange(0, i as int)[k]);
            } else {
                assert(grid_of(*board)[k] == board@[k]@);
            }
        }
        assert(grid_of(r) =~= grid_of(*board).subrange(0, i + 1));
        i = i + 1;
    }
    assert(grid_of(r) =~= grid_of(*board));
    r
}

} // verus!
