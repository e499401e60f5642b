use vstd::prelude::*;
use crate::chess_move::{ChessMove, Move};
use crate::coords::{sq, square_of_index, Coords, Direction};
use crate::piece::{promotable_kinds, Piece, PieceColor, PieceKind};
use crate::engine::{ab_loop, ab_score, negamax_loop, negamax_score, Evaluation};
use crate::rules::{expand_promotion, expand_promotions, regular_moves, PositionView};

verus! {

proof fn lemma_concat_contains<A>(a: Seq<A>, b: Seq<A>, x: A)
    requires
        (a + b).contains(x),
    ensures
        a.contains(x) || b.contains(x),
{
    let i = choose|i: int| 0 <= i < (a + b).len() && (a + b)[i] == x;
    if i < a.len() {
        assert(a[i] == x);
    } else {
        assert(b[i - a.len()] == x);
    }
}

proof fn lemma_contains_concat<A>(a: Seq<A>, b: Seq<A>, x: A)
    requires
        a.contains(x) || b.contains(x),
    ensures
        (a + b).contains(x),
{
    if a.contains(x) {
        let i = choose|i: int| 0 <= i < a.len() && a[i] == x;
        assert((a + b)[i] == x);
    } else {
        let i = choose|i: int| 0 <= i < b.len() && b[i] == x;
        assert((a + b)[a.len() + i] == x);
    }
}

proof fn lemma_keep_legal_member(p: PositionView, ms: Seq<ChessMove>, m: ChessMove)
    requires
        p.keep_legal(ms).contains(m),
    ensures
        ms.contains(m),
        !p.after(m).in_check(p.to_move),
    decreases ms.len(),
{
    if ms.len() > 0 {
        let tail = if p.after(ms.last()).in_check(p.to_move) {
            seq![]
        } else {
            seq![ms.last()]
        };
        lemma_concat_contains(p.keep_legal(ms.drop_last()), tail, m);
        if p.keep_legal(ms.drop_last()).contains(m) {
            lemma_keep_legal_member(p, ms.drop_last(), m);
            let i = choose|i: int| 0 <= i < ms.drop_last().len() && ms.drop_last()[i] == m;
            assert(ms[i] == m);
        } else {
            assert(tail[0] == m);
            assert(ms[ms.len() - 1] == m);
        }
    }
}

proof fn lemma_legal_upto_member(p: PositionView, k: int, m: ChessMove)
    requires
        p.legal_upto(k).contains(m),
    ensures
        exists|j: int| 0 <= j < k && p.legal(square_of_index(j)).contains(m),
    decreases k,
{
    if k > 0 {
        lemma_concat_contains(p.legal_upto(k - 1), p.legal(square_of_index(k - 1)), m);
        if p.legal_upto(k - 1).contains(m) {
            lemma_legal_upto_member(p, k - 1, m);
        }
    }
}

/// No legal move leaves the mover's own king attacked: playing any move of
/// `all_legal` and then looking for attacks on the mover's king finds none.
pub proof fn legal_moves_keep_king_safe(p: PositionView, m: ChessMove)
    requires
        p.all_legal().contains(m),
    ensures
        !p.after(m).in_check(p.to_move),
{
    lemma_legal_upto_member(p, 64, m);
    let j = choose|j: int| 0 <= j < 64 && p.legal(square_of_index(j)).contains(m);
    lemma_keep_legal_member(p, p.possible(square_of_index(j)), m);
}

/// A move is legal exactly when it is among the legal moves from its origin
/// square (the king's home square for castling).
pub proof fn legality_is_membership(p: PositionView, m: ChessMove)
    ensures
        p.is_legal(m) <==> p.legal(p.origin_of(m)).contains(m),
{
}

/// Checkmate and stalemate never hold together; each leaves the side to move
/// without a legal move; checkmate means its king is on the board and attacked.
pub proof fn mate_and_stalemate_are_exclusive(p: PositionView)
    ensures
        !(p.checkmate() && p.stalemate()),
        p.checkmate() ==> p.all_legal().len() == 0,
        p.stalemate() ==> p.all_legal().len() == 0,
        p.checkmate() ==> (p.king_square(p.to_move) matches Some(k) && p.attacked_by(
            p.to_move.other(),
            k,
        )),
{
}

/// The en-passant target lives one ply: it is set by a double pawn push, to
/// the square passed over, and cleared by every other move.
pub proof fn en_passant_lasts_one_ply(p: PositionView, m: ChessMove)
    ensures
        p.after(m).en_passant_on is Some <==> m is PawnSkip,
        m matches ChessMove::PawnSkip(mv) ==> p.after(m).en_passant_on == Some(
            sq(mv.origin.x as int, (mv.origin.y + mv.destination.y) / 2),
        ),
{
}

proof fn lemma_expand_no_plain_last_rank(ms: Seq<ChessMove>, c: PieceColor, m: ChessMove)
    requires
        expand_promotions(ms, c).contains(m),
    ensures
        !(m matches ChessMove::RegularMove(mv) && mv.destination.y == c.other().home()),
    decreases ms.len(),
{
    if ms.len() > 0 {
        lemma_concat_contains(expand_promotions(ms.drop_last(), c), expand_promotion(ms.last(), c), m);
        if expand_promotions(ms.drop_last(), c).contains(m) {
            lemma_expand_no_plain_last_rank(ms.drop_last(), c, m);
        } else {
            let e = expand_promotion(ms.last(), c);
            let i = choose|i: int| 0 <= i < e.len() && e[i] == m;
            if let ChessMove::RegularMove(mv) = ms.last() {
                if mv.destination.y == c.other().home() {
                    assert(e[i] == ChessMove::Promotion(mv, promotable_kinds()[i]));
                }
            }
        }
    }
}

proof fn lemma_expand_all_kinds(ms: Seq<ChessMove>, c: PieceColor, mv: Move, k: PieceKind)
    requires
        expand_promotions(ms, c).contains(ChessMove::Promotion(mv, k)),
        forall|i: int| 0 <= i < ms.len() ==> !(#[trigger] ms[i] is Promotion),
    ensures
        forall|j: int|
            0 <= j < 4 ==> expand_promotions(ms, c).contains(
                ChessMove::Promotion(mv, #[trigger] promotable_kinds()[j]),
            ),
    decreases ms.len(),
{
    if ms.len() > 0 {
        let first = expand_promotions(ms.drop_last(), c);
        let e = expand_promotion(ms.last(), c);
        lemma_concat_contains(first, e, ChessMove::Promotion(mv, k));
        if first.contains(ChessMove::Promotion(mv, k)) {
            lemma_expand_all_kinds(ms.drop_last(), c, mv, k);
            assert forall|j: int| 0 <= j < 4 implies expand_promotions(ms, c).contains(
                ChessMove::Promotion(mv, #[trigger] promotable_kinds()[j]),
            ) by {
                lemma_contains_concat(first, e, ChessMove::Promotion(mv, promotable_kinds()[j]));
            }
        } else {
            let i = choose|i: int| 0 <= i < e.len() && e[i] == ChessMove::Promotion(mv, k);
            assert(!(ms[ms.len() - 1] is Promotion));
            if let ChessMove::RegularMove(mv2) = ms.last() {
                if mv2.destination.y == c.other().home() {
                    assert(e[i] == ChessMove::Promotion(mv2, promotable_kinds()[i]));
                    assert forall|j: int| 0 <= j < 4 implies expand_promotions(ms, c).contains(
                        ChessMove::Promotion(mv, #[trigger] promotable_kinds()[j]),
                    ) by {
                        assert(e[j] == ChessMove::Promotion(mv, promotable_kinds()[j]));
                        lemma_contains_concat(first, e, ChessMove::Promotion(mv, promotable_kinds()[j]));
                    }
                }
            }
        }
    }
}

proof fn lemma_promotion_reaches_last_rank(ms: Seq<ChessMove>, c: PieceColor, m: ChessMove)
    requires
        expand_promotions(ms, c).contains(m),
        m is Promotion,
        forall|i: int| 0 <= i < ms.len() ==> !(#[trigger] ms[i] is Promotion),
    ensures
        m matches ChessMove::Promotion(mv, _) && mv.destination.y == c.other().home(),
    decreases ms.len(),
{
    if ms.len() > 0 {
        lemma_concat_contains(expand_promotions(ms.drop_last(), c), expand_promotion(ms.last(), c), m);
        if expand_promotions(ms.drop_last(), c).contains(m) {
            lemma_promotion_reaches_last_rank(ms.drop_last(), c, m);
        } else {
            let e = expand_promotion(ms.last(), c);
            let i = choose|i: int| 0 <= i < e.len() && e[i] == m;
            assert(!(ms[ms.len() - 1] is Promotion));
            if let ChessMove::RegularMove(mv) = ms.last() {
                if mv.destination.y == c.other().home() {
                    assert(e[i] == ChessMove::Promotion(mv, promotable_kinds()[i]));
                }
            }
        }
    }
}

proof fn lemma_promotion_counted(ms: Seq<ChessMove>, mv: Move, k: PieceKind)
    requires
        ms.contains(ChessMove::Promotion(mv, k)),
    ensures
        count_promotions(ms, mv) >= 1,
    decreases ms.len(),
{
    if ms.len() > 0 {
        if ms.last() != ChessMove::Promotion(mv, k) {
            let i = choose|i: int| 0 <= i < ms.len() && ms[i] == ChessMove::Promotion(mv, k);
            assert(ms.drop_last()[i] == ChessMove::Promotion(mv, k));
            lemma_promotion_counted(ms.drop_last(), mv, k);
        }
    }
}

/// Move `m` ends on rank row `y`.
pub open spec fn lands_on(m: ChessMove, y: int) -> bool {
    match m {
        ChessMove::RegularMove(mv) => mv.destination.y == y,
        ChessMove::PawnSkip(mv) => mv.destination.y == y,
        ChessMove::EnPassant(mv, _) => mv.destination.y == y,
        ChessMove::Promotion(mv, _) => mv.destination.y == y,
        _ => false,
    }
}

/// Neither a double push nor an en-passant capture of a pawn reaches the
/// last rank.
proof fn lemma_pawn_base_special_short(p: PositionView, o: Coords, c: PieceColor)
    ensures
        forall|i: int|
            0 <= i < p.pawn_base_moves(o, c).len() && (#[trigger] p.pawn_base_moves(o, c)[i] is PawnSkip
                || p.pawn_base_moves(o, c)[i] is EnPassant) ==> !lands_on(
                p.pawn_base_moves(o, c)[i],
                c.other().home(),
            ),
{
    let b = p.pawn_base_moves(o, c);
    assert forall|i: int|
        0 <= i < b.len() && (#[trigger] b[i] is PawnSkip || b[i] is EnPassant) implies !lands_on(
        b[i],
        c.other().home(),
    ) by {
        let pushes = p.pawn_pushes(o, c);
        let right = p.pawn_capture(o, c, 1);
        let left = p.pawn_capture(o, c, -1);
        let ep = p.en_passant_moves(o, c);
        assert(b == pushes + right + left + ep);
        if i < pushes.len() {
        } else if i < pushes.len() + right.len() {
        } else if i < pushes.len() + right.len() + left.len() {
        } else {
            assert(b[i] == ep[i - pushes.len() - right.len() - left.len()]);
        }
    }
}

proof fn lemma_expand_lands_promoted(ms: Seq<ChessMove>, c: PieceColor, m: ChessMove)
    requires
        expand_promotions(ms, c).contains(m),
        forall|i: int|
            0 <= i < ms.len() && (#[trigger] ms[i] is PawnSkip || ms[i] is EnPassant) ==> !lands_on(
                ms[i],
                c.other().home(),
            ),
    ensures
        lands_on(m, c.other().home()) ==> m is Promotion,
    decreases ms.len(),
{
    if ms.len() > 0 {
        let e = expand_promotion(ms.last(), c);
        lemma_concat_contains(expand_promotions(ms.drop_last(), c), e, m);
        if expand_promotions(ms.drop_last(), c).contains(m) {
            lemma_expand_lands_promoted(ms.drop_last(), c, m);
        } else {
            let i = choose|i: int| 0 <= i < e.len() && e[i] == m;
            let x = ms[ms.len() - 1];
            if let ChessMove::RegularMove(mv) = x {
                if mv.destination.y == c.other().home() {
                    assert(e[i] == ChessMove::Promotion(mv, promotable_kinds()[i]));
                }
            }
        }
    }
}

/// The pawn moves from `o` before promotions are spelled out hold no promotion.
proof fn lemma_pawn_base_no_promotion(p: PositionView, o: Coords, c: PieceColor)
    ensures
        forall|i: int|
            0 <= i < p.pawn_base_moves(o, c).len() ==> !(#[trigger] p.pawn_base_moves(o, c)[i] is Promotion),
{
    let b = p.pawn_base_moves(o, c);
    assert forall|i: int| 0 <= i < b.len() implies !(#[trigger] b[i] is Promotion) by {
        let pushes = p.pawn_pushes(o, c);
        let right = p.pawn_capture(o, c, 1);
        let left = p.pawn_capture(o, c, -1);
        let ep = p.en_passant_moves(o, c);
        assert(b == pushes + right + left + ep);
        if i < pushes.len() {
        } else if i < pushes.len() + right.len() {
        } else if i < pushes.len() + right.len() + left.len() {
        } else {
            assert(b[i] == ep[i - pushes.len() - right.len() - left.len()]);
        }
    }
}

/// A pawn move onto the opponent's home rank is always a promotion (never a
/// plain move, double push or en-passant capture), and promotions come
/// exactly four for each move, one to each of rook, knight, bishop and queen.
pub proof fn promotions_come_in_fours(p: PositionView, o: Coords, m: ChessMove)
    requires
        p.possible(o).contains(m),
        p.at(o) matches Some(q) && q.kind == PieceKind::Pawn,
    ensures
        !(m matches ChessMove::RegularMove(mv) && mv.destination.y == p.to_move.other().home()),
        lands_on(m, p.to_move.other().home()) ==> m is Promotion,
        m matches ChessMove::Promotion(mv, _) ==> forall|j: int|
            0 <= j < 4 ==> p.possible(o).contains(
                ChessMove::Promotion(mv, #[trigger] promotable_kinds()[j]),
            ),
        m matches ChessMove::Promotion(mv, _) ==> count_promotions(p.possible(o), mv) == 4,
{
    let c = p.to_move;
    let base = p.pawn_base_moves(o, c);
    lemma_expand_no_plain_last_rank(base, c, m);
    lemma_pawn_base_special_short(p, o, c);
    lemma_expand_lands_promoted(base, c, m);
    if let ChessMove::Promotion(mv, k) = m {
        lemma_pawn_base_no_promotion(p, o, c);
        lemma_expand_all_kinds(base, c, mv, k);
        lemma_promotion_reaches_last_rank(base, c, m);
        lemma_count_expanded(base, c, mv);
        lemma_pawn_base_regular_once(p, o, c, mv);
        lemma_promotion_counted(expand_promotions(base, c), mv, k);
    }
}

/// The number of promotions of `ms` that make move `mv`.
pub open spec fn count_promotions(ms: Seq<ChessMove>, mv: Move) -> nat
    decreases ms.len(),
{
    if ms.len() == 0 {
        0
    } else {
        count_promotions(ms.drop_last(), mv) + if ms.last() matches ChessMove::Promotion(m, _) && m == mv {
            1nat
        } else {
            0
        }
    }
}

/// The number of regular moves of `ms` equal to `mv`.
pub open spec fn count_regular(ms: Seq<ChessMove>, mv: Move) -> nat
    decreases ms.len(),
{
    if ms.len() == 0 {
        0
    } else {
        count_regular(ms.drop_last(), mv) + if ms.last() == ChessMove::RegularMove(mv) {
            1nat
        } else {
            0
        }
    }
}

proof fn lemma_count_promotions_concat(a: Seq<ChessMove>, b: Seq<ChessMove>, mv: Move)
    ensures
        count_promotions(a + b, mv) == count_promotions(a, mv) + count_promotions(b, mv),
    decreases b.len(),
{
    if b.len() > 0 {
        assert((a + b).drop_last() =~= a + b.drop_last());
        lemma_count_promotions_concat(a, b.drop_last(), mv);
    } else {
        assert(a + b =~= a);
    }
}

proof fn lemma_count_regular_concat(a: Seq<ChessMove>, b: Seq<ChessMove>, mv: Move)
    ensures
        count_regular(a + b, mv) == count_regular(a, mv) + count_regular(b, mv),
    decreases b.len(),
{
    if b.len() > 0 {
        assert((a + b).drop_last() =~= a + b.drop_last());
        lemma_count_regular_concat(a, b.drop_last(), mv);
    } else {
        assert(a + b =~= a);
    }
}

/// Spelling out promotions turns each regular move onto the last rank into
/// four promotions, and makes no other promotion.
proof fn lemma_count_expanded(ms: Seq<ChessMove>, c: PieceColor, mv: Move)
    requires
        mv.destination.y == c.other().home(),
        forall|i: int| 0 <= i < ms.len() ==> !(#[trigger] ms[i] is Promotion),
    ensures
        count_promotions(expand_promotions(ms, c), mv) == 4 * count_regular(ms, mv),
    decreases ms.len(),
{
    if ms.len() > 0 {
        lemma_count_expanded(ms.drop_last(), c, mv);
        let e = expand_promotion(ms.last(), c);
        lemma_count_promotions_concat(expand_promotions(ms.drop_last(), c), e, mv);
        assert(!(ms[ms.len() - 1] is Promotion));
        if let ChessMove::RegularMove(m) = ms.last() {
            if m.destination.y == c.other().home() {
                let k = promotable_kinds();
                assert(e =~= seq![
                    ChessMove::Promotion(m, k[0]),
                    ChessMove::Promotion(m, k[1]),
                    ChessMove::Promotion(m, k[2]),
                    ChessMove::Promotion(m, k[3]),
                ]);
                reveal_with_fuel(count_promotions, 5);
            } else {
                assert(e =~= seq![ms.last()]);
                reveal_with_fuel(count_promotions, 2);
            }
        } else {
            assert(e =~= seq![ms.last()]);
            reveal_with_fuel(count_promotions, 2);
        }
    }
}

/// Each move appears at most once among a pawn's regular moves.
proof fn lemma_pawn_base_regular_once(p: PositionView, o: Coords, c: PieceColor, mv: Move)
    ensures
        count_regular(p.pawn_base_moves(o, c), mv) <= 1,
{
    let pushes = p.pawn_pushes(o, c);
    let right = p.pawn_capture(o, c, 1);
    let left = p.pawn_capture(o, c, -1);
    let ep = p.en_passant_moves(o, c);
    lemma_count_regular_concat(pushes + right + left, ep, mv);
    lemma_count_regular_concat(pushes + right, left, mv);
    lemma_count_regular_concat(pushes, right, mv);
    reveal_with_fuel(count_regular, 3);
    assert(count_regular(ep, mv) == 0);
    assert(pushes.len() == 0 || pushes.len() == 1 || pushes.len() == 2);
    if pushes.len() == 2 {
        assert(pushes.drop_last() =~= seq![pushes[0]]);
    }
    assert(count_regular(pushes, mv) + count_regular(right, mv) + count_regular(left, mv) <= 1);
}

proof fn lemma_regular_moves_plain(o: Coords, cs: Seq<Coords>, m: ChessMove)
    requires
        regular_moves(o, cs).contains(m),
    ensures
        m is RegularMove,
    decreases cs.len(),
{
    if cs.len() > 0 {
        lemma_concat_contains(regular_moves(o, cs.drop_last()), seq![crate::rules::regular(o, cs.last())], m);
        if regular_moves(o, cs.drop_last()).contains(m) {
            lemma_regular_moves_plain(o, cs.drop_last(), m);
        }
    }
}

proof fn lemma_ray_moves_plain(p: PositionView, o: Coords, dirs: Seq<Direction>, c: PieceColor, last: int, m: ChessMove)
    requires
        p.ray_moves(o, dirs, c, last).contains(m),
    ensures
        m is RegularMove,
    decreases dirs.len(),
{
    if dirs.len() > 0 {
        let rest = regular_moves(o, p.ray(o, dirs.last(), c, 1, last));
        lemma_concat_contains(p.ray_moves(o, dirs.drop_last(), c, last), rest, m);
        if p.ray_moves(o, dirs.drop_last(), c, last).contains(m) {
            lemma_ray_moves_plain(p, o, dirs.drop_last(), c, last, m);
        } else {
            lemma_regular_moves_plain(o, p.ray(o, dirs.last(), c, 1, last), m);
        }
    }
}

/// The castling move on the king's side (`king_side`) or the queen's.
pub open spec fn castle(king_side: bool) -> ChessMove {
    if king_side {
        ChessMove::CastleRight
    } else {
        ChessMove::CastleLeft
    }
}

/// With the king of the side to move on its home square, castling is offered
/// from there exactly when the right is kept, the rook stands on its corner,
/// the squares between are empty, and none of the king's square, the square
/// it passes over and the square it lands on is attacked.
pub proof fn castling_offered_iff(p: PositionView, king_side: bool)
    requires
        p.holds(sq(4, p.to_move.home()), PieceKind::King, p.to_move),
    ensures
        p.possible(sq(4, p.to_move.home())).contains(castle(king_side)) <==> p.castle_open(
            p.to_move,
            king_side,
        ),
{
    let c = p.to_move;
    let o = sq(4, c.home());
    let steps = p.ray_moves(o, crate::coords::all_dirs(), c, 1);
    let right = if p.castle_open(c, true) { seq![ChessMove::CastleRight] } else { seq![] };
    let left = if p.castle_open(c, false) { seq![ChessMove::CastleLeft] } else { seq![] };
    assert(p.possible(o) == steps + right + left);
    if p.possible(o).contains(castle(king_side)) {
        lemma_concat_contains(steps + right, left, castle(king_side));
        if (steps + right).contains(castle(king_side)) {
            lemma_concat_contains(steps, right, castle(king_side));
            if steps.contains(castle(king_side)) {
                lemma_ray_moves_plain(p, o, crate::coords::all_dirs(), c, 1, castle(king_side));
            }
        }
    }
    if p.castle_open(c, king_side) {
        if king_side {
            assert(right[0] == castle(king_side));
            lemma_contains_concat(steps, right, castle(king_side));
            lemma_contains_concat(steps + right, left, castle(king_side));
        } else {
            assert(left[0] == castle(king_side));
            lemma_contains_concat(steps + right, left, castle(king_side));
        }
    }
}

/// Castling moves the king two files toward the rook and the rook onto the
/// square the king crossed, empties both home squares, and ends both castling
/// rights of the side that castled.
pub proof fn castling_relocates_king_and_rook(p: PositionView, king_side: bool)
    requires
        p.wf(),
        p.castle_open(p.to_move, king_side),
    ensures
        ({
            let c = p.to_move;
            let row = c.home();
            let q = p.after(castle(king_side));
            &&& q.holds(sq(if king_side { 6 } else { 2 }, row), PieceKind::King, c)
            &&& q.holds(sq(if king_side { 5 } else { 3 }, row), PieceKind::Rook, c)
            &&& q.empty_at(sq(4, row))
            &&& q.empty_at(sq(if king_side { 7 } else { 0 }, row))
            &&& !q.right(c, true)
            &&& !q.right(c, false)
        }),
{
}

/// A castling right, once lost, never comes back.
pub proof fn castling_rights_are_never_regained(p: PositionView, m: ChessMove, c: PieceColor, king_side: bool)
    requires
        !p.right(c, king_side),
    ensures
        !p.after(m).right(c, king_side),
{
}


proof fn lemma_keep_legal_keeps(p: PositionView, ms: Seq<ChessMove>, m: ChessMove)
    requires
        ms.contains(m),
        !p.after(m).in_check(p.to_move),
    ensures
        p.keep_legal(ms).contains(m),
    decreases ms.len(),
{
    if ms.len() > 0 {
        let tail = if p.after(ms.last()).in_check(p.to_move) {
            seq![]
        } else {
            seq![ms.last()]
        };
        if ms.last() == m {
            assert(tail[0] == m);
            lemma_contains_concat(p.keep_legal(ms.drop_last()), tail, m);
        } else {
            let i = choose|i: int| 0 <= i < ms.len() && ms[i] == m;
            assert(ms.drop_last()[i] == m);
            lemma_keep_legal_keeps(p, ms.drop_last(), m);
            lemma_contains_concat(p.keep_legal(ms.drop_last()), tail, m);
        }
    }
}

/// A move is among the legal moves from `o` exactly when it is among the
/// pseudo-legal ones and does not leave the mover's king attacked.
pub proof fn legal_is_safe_possible(p: PositionView, o: Coords, m: ChessMove)
    ensures
        p.legal(o).contains(m) <==> p.possible(o).contains(m) && !p.after(m).in_check(p.to_move),
{
    if p.legal(o).contains(m) {
        lemma_keep_legal_member(p, p.possible(o), m);
    }
    if p.possible(o).contains(m) && !p.after(m).in_check(p.to_move) {
        lemma_keep_legal_keeps(p, p.possible(o), m);
    }
}

proof fn lemma_jump_moves_plain(p: PositionView, o: Coords, offs: Seq<Direction>, c: PieceColor, m: ChessMove)
    requires
        p.jump_moves(o, offs, c).contains(m),
    ensures
        m is RegularMove,
    decreases offs.len(),
{
    if offs.len() > 0 {
        let t = o.step(offs.last(), 1);
        let tail = if t.in_bounds() && !(p.at(t) matches Some(q) && q.color == c) {
            seq![crate::rules::regular(o, t)]
        } else {
            seq![]
        };
        lemma_concat_contains(p.jump_moves(o, offs.drop_last(), c), tail, m);
        if p.jump_moves(o, offs.drop_last(), c).contains(m) {
            lemma_jump_moves_plain(p, o, offs.drop_last(), c, m);
        }
    }
}

proof fn lemma_expand_no_castle(ms: Seq<ChessMove>, c: PieceColor, m: ChessMove)
    requires
        expand_promotions(ms, c).contains(m),
        forall|i: int| 0 <= i < ms.len() ==> !(#[trigger] ms[i] is CastleLeft) && !(ms[i] is CastleRight),
    ensures
        !(m is CastleLeft) && !(m is CastleRight),
    decreases ms.len(),
{
    if ms.len() > 0 {
        let e = expand_promotion(ms.last(), c);
        lemma_concat_contains(expand_promotions(ms.drop_last(), c), e, m);
        if expand_promotions(ms.drop_last(), c).contains(m) {
            lemma_expand_no_castle(ms.drop_last(), c, m);
        } else {
            let i = choose|i: int| 0 <= i < e.len() && e[i] == m;
            assert(!(ms[ms.len() - 1] is CastleLeft) && !(ms[ms.len() - 1] is CastleRight));
            if let ChessMove::RegularMove(mv) = ms.last() {
                if mv.destination.y == c.other().home() {
                    assert(e[i] == ChessMove::Promotion(mv, promotable_kinds()[i]));
                }
            }
        }
    }
}

/// Only a king of the side to move offers castling.
proof fn lemma_only_king_castles(p: PositionView, o: Coords, m: ChessMove)
    requires
        p.possible(o).contains(m),
        m is CastleLeft || m is CastleRight,
    ensures
        p.holds(o, PieceKind::King, p.to_move),
{
    let q = p.at(o)->0;
    let c = q.color;
    match q.kind {
        PieceKind::Pawn => {
            let b = p.pawn_base_moves(o, c);
            assert forall|i: int| 0 <= i < b.len() implies !(#[trigger] b[i] is CastleLeft) && !(b[i] is CastleRight) by {
                let pushes = p.pawn_pushes(o, c);
                let right = p.pawn_capture(o, c, 1);
                let left = p.pawn_capture(o, c, -1);
                let ep = p.en_passant_moves(o, c);
                assert(b == pushes + right + left + ep);
                if i < pushes.len() {
                } else if i < pushes.len() + right.len() {
                } else if i < pushes.len() + right.len() + left.len() {
                } else {
                    assert(b[i] == ep[i - pushes.len() - right.len() - left.len()]);
                }
            }
            lemma_expand_no_castle(b, c, m);
        },
        PieceKind::Rook => lemma_ray_moves_plain(p, o, crate::coords::orthogonal_dirs(), c, 7, m),
        PieceKind::Knight => lemma_jump_moves_plain(p, o, crate::rules::knight_offsets(), c, m),
        PieceKind::Bishop => lemma_ray_moves_plain(p, o, crate::coords::diagonal_dirs(), c, 7, m),
        PieceKind::Queen => lemma_ray_moves_plain(p, o, crate::coords::all_dirs(), c, 7, m),
        PieceKind::King => {},
    }
}

/// Castling is legal exactly when it is open (right kept, king and rook on
/// their squares, the squares between empty, the king's square, the square it
/// passes over and the square it lands on unattacked) and the position after
/// it leaves no king of the mover in check.
pub proof fn castling_legal_iff(p: PositionView, king_side: bool)
    ensures
        p.is_legal(castle(king_side)) <==> p.castle_open(p.to_move, king_side) && !p.after(
            castle(king_side),
        ).in_check(p.to_move),
{
    let o = sq(4, p.to_move.home());
    let m = castle(king_side);
    assert(p.origin_of(m) == o);
    legal_is_safe_possible(p, o, m);
    if p.possible(o).contains(m) {
        lemma_only_king_castles(p, o, m);
        castling_offered_iff(p, king_side);
    }
    if p.castle_open(p.to_move, king_side) {
        // an open castle means the king stands on its home square
        castling_offered_iff(p, king_side);
    }
}

/// A legal castle moves the king two files toward the rook and the rook onto
/// the square the king crossed, empties both home squares, and ends both
/// castling rights of the side that castled.
pub proof fn legal_castling_relocates_king_and_rook(p: PositionView, king_side: bool)
    requires
        p.wf(),
        p.is_legal(castle(king_side)),
    ensures
        ({
            let c = p.to_move;
            let row = c.home();
            let q = p.after(castle(king_side));
            &&& q.holds(sq(if king_side { 6 } else { 2 }, row), PieceKind::King, c)
            &&& q.holds(sq(if king_side { 5 } else { 3 }, row), PieceKind::Rook, c)
            &&& q.empty_at(sq(4, row))
            &&& q.empty_at(sq(if king_side { 7 } else { 0 }, row))
            &&& !q.right(c, true)
            &&& !q.right(c, false)
        }),
{
    castling_legal_iff(p, king_side);
    castling_relocates_king_and_rook(p, king_side);
}


/// `q1` and `q2` agree but on square `d`, where each holds a piece of `c`
/// that is neither a king nor a pawn.
pub open spec fn differ_in_kind_at(q1: PositionView, q2: PositionView, d: Coords, c: PieceColor) -> bool {
    &&& q1.to_move == q2.to_move
    &&& q1.en_passant_on == q2.en_passant_on
    &&& d.in_bounds()
    &&& forall|s: Coords| s.in_bounds() && s != d ==> #[trigger] q1.at(s) == q2.at(s)
    &&& q1.at(d) matches Some(a) && a.color == c && a.kind != PieceKind::King && a.kind != PieceKind::Pawn
    &&& q2.at(d) matches Some(b) && b.color == c && b.kind != PieceKind::King && b.kind != PieceKind::Pawn
}

proof fn lemma_first_piece_agree(q1: PositionView, q2: PositionView, d: Coords, c: PieceColor, s: Coords, dir: Direction, i: int)
    requires
        differ_in_kind_at(q1, q2, d, c),
    ensures
        q1.first_piece(s, dir, i) == q2.first_piece(s, dir, i) || (q1.first_piece(s, dir, i) matches Some(a)
            && q2.first_piece(s, dir, i) matches Some(b) && a.color == c && b.color == c),
    decreases 8 - i,
{
    if i < 8 {
        let n = s.step(dir, i);
        if n.in_bounds() && n != d {
            assert(q1.at(n) == q2.at(n));
            lemma_first_piece_agree(q1, q2, d, c, s, dir, i + 1);
        }
    }
}

proof fn lemma_slider_agree(q1: PositionView, q2: PositionView, d: Coords, c: PieceColor, s: Coords, dirs: Seq<Direction>, diagonal: bool)
    requires
        differ_in_kind_at(q1, q2, d, c),
    ensures
        q1.slider_attack(s, dirs, c.other(), diagonal) == q2.slider_attack(s, dirs, c.other(), diagonal),
    decreases dirs.len(),
{
    if dirs.len() > 0 {
        lemma_slider_agree(q1, q2, d, c, s, dirs.drop_last(), diagonal);
        lemma_first_piece_agree(q1, q2, d, c, s, dirs.last(), 1);
    }
}

proof fn lemma_jump_agree(q1: PositionView, q2: PositionView, d: Coords, c: PieceColor, s: Coords, offs: Seq<Direction>, kind: PieceKind)
    requires
        differ_in_kind_at(q1, q2, d, c),
    ensures
        q1.jump_attack(s, offs, c.other(), kind) == q2.jump_attack(s, offs, c.other(), kind),
    decreases offs.len(),
{
    if offs.len() > 0 {
        lemma_jump_agree(q1, q2, d, c, s, offs.drop_last(), kind);
        let t = s.step(offs.last(), 1);
        if t.in_bounds() && t != d {
            assert(q1.at(t) == q2.at(t));
        }
    }
}

proof fn lemma_attacked_agree(q1: PositionView, q2: PositionView, d: Coords, c: PieceColor, s: Coords)
    requires
        differ_in_kind_at(q1, q2, d, c),
        s.in_bounds(),
    ensures
        q1.attacked_by(c.other(), s) == q2.attacked_by(c.other(), s),
{
    lemma_jump_agree(q1, q2, d, c, s, crate::coords::all_dirs(), PieceKind::King);
    lemma_jump_agree(q1, q2, d, c, s, crate::rules::knight_offsets(), PieceKind::Knight);
    lemma_slider_agree(q1, q2, d, c, s, crate::coords::orthogonal_dirs(), false);
    lemma_slider_agree(q1, q2, d, c, s, crate::coords::diagonal_dirs(), true);
    let r = s.y + c.other().other().forward();
    let a = sq(s.x + 1, r);
    let b = sq(s.x - 1, r);
    if a.in_bounds() && a != d {
        assert(q1.at(a) == q2.at(a));
    }
    if b.in_bounds() && b != d {
        assert(q1.at(b) == q2.at(b));
    }
    let t = sq(s.x as int, s.y + c.other().forward());
    let ta = sq(t.x + 1, t.y + c.other().other().forward());
    let tb = sq(t.x - 1, t.y + c.other().other().forward());
    if ta.in_bounds() && ta != d {
        assert(q1.at(ta) == q2.at(ta));
    }
    if tb.in_bounds() && tb != d {
        assert(q1.at(tb) == q2.at(tb));
    }
    if s != d {
        assert(q1.at(s) == q2.at(s));
    }
}

proof fn lemma_king_from_agree(q1: PositionView, q2: PositionView, d: Coords, c: PieceColor, k: int)
    requires
        differ_in_kind_at(q1, q2, d, c),
        0 <= k,
    ensures
        q1.king_from(c, k) == q2.king_from(c, k),
        q1.king_from(c, k) matches Some(l) ==> l.in_bounds() && l != d,
    decreases 64 - k,
{
    if k < 64 {
        let s = square_of_index(k);
        assert(s.in_bounds());
        if s != d {
            assert(q1.at(s) == q2.at(s));
        }
        lemma_king_from_agree(q1, q2, d, c, k + 1);
    }
}

/// Positions that differ only in the kind of one piece of `c` (neither king
/// nor pawn) agree on whether `c` is in check.
proof fn lemma_check_agree(q1: PositionView, q2: PositionView, d: Coords, c: PieceColor)
    requires
        differ_in_kind_at(q1, q2, d, c),
    ensures
        q1.in_check(c) == q2.in_check(c),
{
    lemma_king_from_agree(q1, q2, d, c, 0);
    if let Some(l) = q1.king_square(c) {
        lemma_attacked_agree(q1, q2, d, c, l);
    }
}

/// The promotions of one pawn move to two promotable kinds lead to positions
/// that differ only in the kind on the destination square.
proof fn lemma_promotions_differ_in_kind(p: PositionView, mv: Move, k1: PieceKind, k2: PieceKind)
    requires
        p.wf(),
        mv.origin.in_bounds(),
        mv.destination.in_bounds(),
        promotable_kinds().contains(k1),
        promotable_kinds().contains(k2),
    ensures
        differ_in_kind_at(
            p.after(ChessMove::Promotion(mv, k1)),
            p.after(ChessMove::Promotion(mv, k2)),
            mv.destination,
            p.to_move,
        ),
{
    let q1 = p.after(ChessMove::Promotion(mv, k1));
    let q2 = p.after(ChessMove::Promotion(mv, k2));
    let d = mv.destination;
    let o = mv.origin;
    assert forall|s: Coords| s.in_bounds() && s != d implies #[trigger] q1.at(s) == q2.at(s) by {
        if s.y == d.y {
            assert(s.x != d.x);
        }
    }
    let i1 = choose|i: int| 0 <= i < 4 && promotable_kinds()[i] == k1;
    let i2 = choose|i: int| 0 <= i < 4 && promotable_kinds()[i] == k2;
    assert(k1 != PieceKind::King && k1 != PieceKind::Pawn);
    assert(k2 != PieceKind::King && k2 != PieceKind::Pawn);
}

proof fn lemma_promotion_source(ms: Seq<ChessMove>, c: PieceColor, mv: Move, k: PieceKind)
    requires
        expand_promotions(ms, c).contains(ChessMove::Promotion(mv, k)),
        forall|i: int| 0 <= i < ms.len() ==> !(#[trigger] ms[i] is Promotion),
    ensures
        ms.contains(ChessMove::RegularMove(mv)),
        promotable_kinds().contains(k),
    decreases ms.len(),
{
    if ms.len() > 0 {
        let m = ChessMove::Promotion(mv, k);
        let e = expand_promotion(ms.last(), c);
        lemma_concat_contains(expand_promotions(ms.drop_last(), c), e, m);
        if expand_promotions(ms.drop_last(), c).contains(m) {
            lemma_promotion_source(ms.drop_last(), c, mv, k);
            let i = choose|i: int| 0 <= i < ms.drop_last().len() && ms.drop_last()[i] == ChessMove::RegularMove(mv);
            assert(ms[i] == ChessMove::RegularMove(mv));
        } else {
            let i = choose|i: int| 0 <= i < e.len() && e[i] == m;
            assert(!(ms[ms.len() - 1] is Promotion));
            if let ChessMove::RegularMove(mv2) = ms.last() {
                if mv2.destination.y == c.other().home() {
                    assert(e[i] == ChessMove::Promotion(mv2, promotable_kinds()[i]));
                    assert(ms[ms.len() - 1] == ChessMove::RegularMove(mv));
                }
            }
        }
    }
}

/// A regular pawn move starts on the pawn's square and ends on the board.
proof fn lemma_pawn_regular_in_bounds(p: PositionView, o: Coords, c: PieceColor, mv: Move)
    requires
        o.in_bounds(),
        sq(o.x as int, o.y + c.forward()).in_bounds(),
        p.pawn_base_moves(o, c).contains(ChessMove::RegularMove(mv)),
    ensures
        mv.origin == o,
        mv.destination.in_bounds(),
{
    let b = p.pawn_base_moves(o, c);
    let pushes = p.pawn_pushes(o, c);
    let right = p.pawn_capture(o, c, 1);
    let left = p.pawn_capture(o, c, -1);
    let ep = p.en_passant_moves(o, c);
    assert(b == pushes + right + left + ep);
    let i = choose|i: int| 0 <= i < b.len() && b[i] == ChessMove::RegularMove(mv);
    if i < pushes.len() {
    } else if i < pushes.len() + right.len() {
    } else if i < pushes.len() + right.len() + left.len() {
    } else {
        assert(b[i] == ep[i - pushes.len() - right.len() - left.len()]);
    }
}

proof fn lemma_count_kept(p: PositionView, ms: Seq<ChessMove>, mv: Move)
    requires
        forall|i: int|
            0 <= i < ms.len() && (#[trigger] ms[i] matches ChessMove::Promotion(m, _) && m == mv)
                ==> !p.after(ms[i]).in_check(p.to_move),
    ensures
        count_promotions(p.keep_legal(ms), mv) == count_promotions(ms, mv),
    decreases ms.len(),
{
    if ms.len() > 0 {
        lemma_count_kept(p, ms.drop_last(), mv);
        let tail = if p.after(ms.last()).in_check(p.to_move) {
            seq![]
        } else {
            seq![ms.last()]
        };
        lemma_count_promotions_concat(p.keep_legal(ms.drop_last()), tail, mv);
        assert(ms[ms.len() - 1] == ms.last());
        reveal_with_fuel(count_promotions, 2);
    }
}

/// Among the legal moves of a pawn, every move onto the opponent's home rank
/// is a promotion, and each comes as exactly four promotions, one to each of
/// rook, knight, bishop and queen: the choice of kind never changes whether
/// the move is legal.
pub proof fn legal_promotions_come_in_fours(p: PositionView, o: Coords, m: ChessMove)
    requires
        p.wf(),
        p.legal(o).contains(m),
        p.at(o) matches Some(q) && q.kind == PieceKind::Pawn,
    ensures
        !(m matches ChessMove::RegularMove(mv) && mv.destination.y == p.to_move.other().home()),
        lands_on(m, p.to_move.other().home()) ==> m is Promotion,
        m matches ChessMove::Promotion(mv, _) ==> count_promotions(p.legal(o), mv) == 4,
        m matches ChessMove::Promotion(mv, _) ==> forall|j: int|
            0 <= j < 4 ==> p.legal(o).contains(
                ChessMove::Promotion(mv, #[trigger] promotable_kinds()[j]),
            ),
{
    let c = p.to_move;
    legal_is_safe_possible(p, o, m);
    promotions_come_in_fours(p, o, m);
    if let ChessMove::Promotion(mv, k) = m {
        let base = p.pawn_base_moves(o, c);
        lemma_pawn_base_no_promotion(p, o, c);
        lemma_promotion_source(base, c, mv, k);
        lemma_pawn_regular_in_bounds(p, o, c, mv);
        assert forall|j: int| 0 <= j < 4 implies !p.after(
            ChessMove::Promotion(mv, #[trigger] promotable_kinds()[j]),
        ).in_check(c) by {
            assert(promotable_kinds().contains(promotable_kinds()[j]));
            lemma_promotions_differ_in_kind(p, mv, k, promotable_kinds()[j]);
            lemma_check_agree(
                p.after(ChessMove::Promotion(mv, k)),
                p.after(ChessMove::Promotion(mv, promotable_kinds()[j])),
                mv.destination,
                c,
            );
        }
        assert forall|j: int| 0 <= j < 4 implies p.legal(o).contains(
            ChessMove::Promotion(mv, #[trigger] promotable_kinds()[j]),
        ) by {
            legal_is_safe_possible(p, o, ChessMove::Promotion(mv, promotable_kinds()[j]));
        }
        let ms = p.possible(o);
        assert forall|i: int|
            0 <= i < ms.len() && (#[trigger] ms[i] matches ChessMove::Promotion(m2, _) && m2 == mv)
                implies !p.after(ms[i]).in_check(c) by {
            if let ChessMove::Promotion(m2, k2) = ms[i] {
                assert(ms.contains(ms[i]));
                lemma_promotion_source(base, c, mv, k2);
                lemma_promotions_differ_in_kind(p, mv, k, k2);
                lemma_check_agree(p.after(ChessMove::Promotion(mv, k)), p.after(ms[i]), mv.destination, c);
            }
        }
        lemma_count_kept(p, ms, mv);
    }
}


/// The pruned score `r` is consistent with the full score `v` in the window
/// `(alpha, beta)`: inside the window they are equal; at or below alpha, `v`
/// is no greater than `r`; at or above beta, no smaller.
pub open spec fn window_consistent(r: int, v: int, alpha: int, beta: int) -> bool {
    &&& r <= alpha ==> v <= r
    &&& r >= beta ==> v >= r
    &&& alpha < r < beta ==> v == r
}

proof fn lemma_negamax_loop_at_least(p: PositionView, ms: Seq<ChessMove>, i: int, depth: nat, e: Evaluation, acc: int)
    ensures
        negamax_loop(p, ms, i, depth, e, acc) >= acc,
    decreases ms.len() - i,
{
    if !(i >= ms.len() || i < 0 || depth == 0) {
        let v = -negamax_score(p.after(ms[i]), (depth - 1) as nat, e);
        lemma_negamax_loop_at_least(p, ms, i + 1, depth, e, if v > acc { v } else { acc });
    }
}

proof fn lemma_alpha_beta_loop(
    p: PositionView,
    ms: Seq<ChessMove>,
    i: int,
    depth: nat,
    e: Evaluation,
    alpha: int,
    low: int,
    beta: int,
    best: int,
    full: int,
)
    requires
        isize::MIN < alpha < beta <= isize::MAX,
        depth >= 1,
        0 <= i,
        low == if best > alpha { best } else { alpha },
        best < beta,
        full <= best,
        best > alpha ==> full == best,
    ensures
        window_consistent(
            ab_loop(p, ms, i, depth, e, low, beta, best),
            negamax_loop(p, ms, i, depth, e, full),
            alpha,
            beta,
        ),
    decreases depth, 0nat, ms.len() - i,
{
    if i < ms.len() {
        let child = p.after(ms[i]);
        alpha_beta_agrees_with_negamax(child, (depth - 1) as nat, e, -beta, -low);
        let ev = -ab_score(child, (depth - 1) as nat, e, -beta, -low);
        let c = -negamax_score(child, (depth - 1) as nat, e);
        let full2 = if c > full { c } else { full };
        if ev > best {
            let low2 = if ev > low { ev } else { low };
            if ev >= beta {
                lemma_negamax_loop_at_least(p, ms, i + 1, depth, e, full2);
            } else {
                lemma_alpha_beta_loop(p, ms, i + 1, depth, e, alpha, low2, beta, ev, full2);
            }
        } else {
            lemma_alpha_beta_loop(p, ms, i + 1, depth, e, alpha, low, beta, best, full2);
        }
    }
}

/// Alpha-beta pruning agrees with plain negamax within the window: where the
/// pruned score lies strictly between alpha and beta it is the negamax score;
/// at or below alpha the negamax score is no greater, at or above beta no
/// smaller. So a negamax score inside the window is found exactly.
pub proof fn alpha_beta_agrees_with_negamax(p: PositionView, depth: nat, e: Evaluation, alpha: int, beta: int)
    requires
        isize::MIN < alpha < beta <= isize::MAX,
    ensures
        window_consistent(ab_score(p, depth, e, alpha, beta), negamax_score(p, depth, e), alpha, beta),
        alpha < negamax_score(p, depth, e) < beta ==> ab_score(p, depth, e, alpha, beta)
            == negamax_score(p, depth, e),
    decreases depth, 1nat, 0nat,
{
    if !(depth == 0 || p.checkmate() || p.stalemate()) {
        lemma_alpha_beta_loop(
            p,
            p.all_legal(),
            0,
            depth,
            e,
            alpha,
            alpha,
            beta,
            isize::MIN as int,
            isize::MIN as int,
        );
    }
}

} // verus!
