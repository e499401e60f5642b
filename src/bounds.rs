use vstd::prelude::*;
use crate::chess_move::ChessMove;
use crate::coords::{all_dirs, diagonal_dirs, orthogonal_dirs, Coords, Direction};
use crate::piece::{promotable_kinds, PieceColor, PieceKind};
use crate::rules::{expand_promotion, expand_promotions, knight_offsets, regular_moves, PositionView};

verus! {

proof fn lemma_ray_len(p: PositionView, o: Coords, d: Direction, c: PieceColor, i: int, last: int)
    requires
        1 <= i,
    ensures
        p.ray(o, d, c, i, last).len() <= if last + 1 - i > 0 { last + 1 - i } else { 0 },
    decreases last + 1 - i,
{
    if i <= last {
        lemma_ray_len(p, o, d, c, i + 1, last);
    }
}

proof fn lemma_regular_moves_len(o: Coords, cs: Seq<Coords>)
    ensures
        regular_moves(o, cs).len() == cs.len(),
    decreases cs.len(),
{
    if cs.len() > 0 {
        lemma_regular_moves_len(o, cs.drop_last());
    }
}

proof fn lemma_ray_moves_len(p: PositionView, o: Coords, dirs: Seq<Direction>, c: PieceColor, last: int)
    requires
        0 <= last <= 7,
    ensures
        p.ray_moves(o, dirs, c, last).len() <= 7 * dirs.len(),
    decreases dirs.len(),
{
    if dirs.len() > 0 {
        lemma_ray_moves_len(p, o, dirs.drop_last(), c, last);
        lemma_ray_len(p, o, dirs.last(), c, 1, last);
        lemma_regular_moves_len(o, p.ray(o, dirs.last(), c, 1, last));
    }
}

proof fn lemma_jump_moves_len(p: PositionView, o: Coords, offs: Seq<Direction>, c: PieceColor)
    ensures
        p.jump_moves(o, offs, c).len() <= offs.len(),
    decreases offs.len(),
{
    if offs.len() > 0 {
        lemma_jump_moves_len(p, o, offs.drop_last(), c);
    }
}

proof fn lemma_expand_promotions_len(ms: Seq<ChessMove>, c: PieceColor)
    ensures
        expand_promotions(ms, c).len() <= 4 * ms.len(),
    decreases ms.len(),
{
    if ms.len() > 0 {
        lemma_expand_promotions_len(ms.drop_last(), c);
        assert(expand_promotion(ms.last(), c).len() <= 4) by {
            assert(promotable_kinds().len() == 4);
        }
    }
}

proof fn lemma_keep_legal_len(p: PositionView, ms: Seq<ChessMove>)
    ensures
        p.keep_legal(ms).len() <= ms.len(),
    decreases ms.len(),
{
    if ms.len() > 0 {
        lemma_keep_legal_len(p, ms.drop_last());
    }
}

/// No square offers more than 64 legal moves.
pub proof fn lemma_legal_len(p: PositionView, o: Coords)
    ensures
        p.legal(o).len() <= 64,
{
    lemma_keep_legal_len(p, p.possible(o));
    if o.in_bounds() {
        if let Some(q) = p.at(o) {
            if q.color == p.to_move {
                assert(orthogonal_dirs().len() == 4);
                assert(diagonal_dirs().len() == 4);
                assert(all_dirs().len() == 8);
                assert(knight_offsets().len() == 8);
                assert(p.pawn_pushes(o, q.color).len() <= 2);
                assert(p.pawn_base_moves(o, q.color).len() <= 5);
                lemma_ray_moves_len(p, o, orthogonal_dirs(), q.color, 7);
                lemma_ray_moves_len(p, o, diagonal_dirs(), q.color, 7);
                lemma_ray_moves_len(p, o, all_dirs(), q.color, 7);
                lemma_ray_moves_len(p, o, all_dirs(), q.color, 1);
                lemma_jump_moves_len(p, o, knight_offsets(), q.color);
                lemma_expand_promotions_len(p.pawn_base_moves(o, q.color), q.color);
            }
        }
    }
}

} // verus!
