use vstd::prelude::*;
use crate::board_manip::piece_at;
use crate::chess_move::ChessMove;
use crate::coords::{all_squares, square_of_index, Coords};
use crate::movegen::all_in_bounds;
use crate::piece::{PieceColor, PieceKind};
use crate::position::Position;
use crate::rules::PositionView;

verus! {

/// The static evaluations a search can score positions with. Each scores a
/// position for the side to move in it.
#[derive(Copy, Clone, PartialEq, Eq, Debug, Structural)]
pub enum Evaluation {
    /// Material, counted double for pieces that are not attacked.
    Basic,
    /// Material, mobility, threats, and a large bonus for checkmate.
    Better,
    /// Minus the two-ply alpha-beta search score under `Better`.
    Planner,
}

/// Every evaluation stays within this bound.
pub const EVAL_BOUND: isize = 20000000;

pub open spec fn basic_value(k: PieceKind) -> int {
    match k {
        PieceKind::King => 0,
        PieceKind::Pawn => 10,
        PieceKind::Rook => 50,
        PieceKind::Bishop => 30,
        PieceKind::Knight => 20,
        PieceKind::Queen => 100,
    }
}

pub open spec fn better_value(k: PieceKind) -> int {
    match k {
        PieceKind::King => 10000,
        PieceKind::Pawn => 100,
        PieceKind::Rook => 500,
        PieceKind::Bishop => 300,
        PieceKind::Knight => 200,
        PieceKind::Queen => 5000,
    }
}

/// The basic score of the piece on `s`: its value, doubled when the
/// opponent of the side to move does not attack `s`, negated for an
/// opposing piece.
pub open spec fn basic_term(p: PositionView, s: Coords) -> int {
    match p.at(s) {
        None => 0,
        Some(q) => {
            let v = if p.attacked_by(p.to_move.other(), s) {
                basic_value(q.kind)
            } else {
                2 * basic_value(q.kind)
            };
            if q.color == p.to_move {
                v
            } else {
                -v
            }
        },
    }
}

pub open spec fn basic_sum(p: PositionView, k: int) -> int
    decreases k,
{
    if k <= 0 {
        0
    } else {
        basic_sum(p, k - 1) + basic_term(p, square_of_index(k - 1))
    }
}

pub open spec fn basic_score(p: PositionView) -> int {
    basic_sum(p, 64)
}

/// The position with `c` to move.
pub open spec fn with_mover(p: PositionView, c: PieceColor) -> PositionView {
    PositionView { to_move: c, ..p }
}

/// The richer score of the piece on `s`: its value, plus two for each legal
/// move it would have, less 5 for an attacked piece of the side to move or
/// its whole value for an attacked opposing piece; negated for an opposing piece.
pub open spec fn better_term(p: PositionView, s: Coords) -> int {
    match p.at(s) {
        None => 0,
        Some(q) => {
            let value = better_value(q.kind);
            let controlled = with_mover(p, q.color).legal(s).len() as int;
            let attacked = if p.attacked_by(q.color.other(), s) {
                if q.color == p.to_move {
                    -5
                } else {
                    -value
                }
            } else {
                0
            };
            let t = value + controlled * 2 + attacked;
            if q.color == p.to_move {
                t
            } else {
                -t
            }
        },
    }
}

pub open spec fn better_sum(p: PositionView, k: int) -> int
    decreases k,
{
    if k <= 0 {
        0
    } else {
        better_sum(p, k - 1) + better_term(p, square_of_index(k - 1))
    }
}

pub open spec fn better_score(p: PositionView) -> int {
    better_sum(p, 64) + if p.checkmate() {
        10000000int
    } else {
        0
    }
}

pub open spec fn rank(e: Evaluation) -> nat {
    if e is Planner {
        1
    } else {
        0
    }
}

/// The score of `p` under evaluation `e`.
pub open spec fn eval_score(e: Evaluation, p: PositionView) -> int
    decreases rank(e), 0nat, 0nat, 0nat,
{
    match e {
        Evaluation::Basic => basic_score(p),
        Evaluation::Better => better_score(p),
        Evaluation::Planner => -ab_score(
            p,
            2,
            Evaluation::Better,
            isize::MIN + 1,
            isize::MAX - 1,
        ),
    }
}

/// The negamax score with alpha-beta pruning: at depth 0, checkmate or
/// stalemate the evaluation; otherwise the fold of `ab_loop` over the legal
/// moves in generation order.
pub open spec fn ab_score(p: PositionView, depth: nat, e: Evaluation, alpha: int, beta: int) -> int
    decreases rank(e), depth + 1, 1nat, 0nat,
{
    if depth == 0 || p.checkmate() || p.stalemate() {
        eval_score(e, p)
    } else {
        ab_loop(p, p.all_legal(), 0, depth, e, alpha, beta, isize::MIN as int)
    }
}

/// The alpha-beta fold from move `i` on, with the best score so far: each
/// child is searched with the window `(-beta, -alpha)` and its score negated;
/// a score above the best replaces it and raises alpha; one that reaches beta
/// ends the fold.
pub open spec fn ab_loop(
    p: PositionView,
    ms: Seq<ChessMove>,
    i: int,
    depth: nat,
    e: Evaluation,
    alpha: int,
    beta: int,
    best: int,
) -> int
    decreases rank(e), depth + 1, 0nat, ms.len() - i,
{
    if i >= ms.len() || i < 0 || depth == 0 {
        best
    } else {
        let eval = -ab_score(p.after(ms[i]), (depth - 1) as nat, e, -beta, -alpha);
        if eval > best {
            if eval >= beta {
                eval
            } else {
                ab_loop(
                    p,
                    ms,
                    i + 1,
                    depth,
                    e,
                    if eval > alpha {
                        eval
                    } else {
                        alpha
                    },
                    beta,
                    eval,
                )
            }
        } else {
            ab_loop(p, ms, i + 1, depth, e, alpha, beta, best)
        }
    }
}

/// Not checkmate and not stalemate: the side to move has a legal move.
proof fn lemma_has_moves(p: PositionView)
    requires
        !p.checkmate(),
        !p.stalemate(),
    ensures
        p.all_legal().len() > 0,
{
}

impl Evaluation {
    /// The score of `position` under this evaluation.
    pub fn evaluate(&self, position: &Position) -> (r: isize)
        requires
            position@.wf(),
        ensures
            r == eval_score(*self, position@),
            -EVAL_BOUND <= r <= EVAL_BOUND,
        decreases rank(*self), 1nat, 0nat, 0nat,
    {
        match self {
            Evaluation::Basic => basic_evaluation(position),
            Evaluation::Better => better_evaluation(position),
            Evaluation::Planner => planner_evaluation(position),
        }
    }
}

/// The basic evaluation of `position` for the side to move.
pub fn basic_evaluation(position: &Position) -> (r: isize)
    requires
        position@.wf(),
    ensures
        r == basic_score(position@),
        -EVAL_BOUND <= r <= EVAL_BOUND,
{
    let squares = all_squares();
    let opponent = position.to_move.opposite();
    let mut total: isize = 0;
    let mut k: usize = 0;
    while k < 64
        invariant
            position@.wf(),
            k <= 64,
            squares@.len() == 64,
            forall|i: int| 0 <= i < 64 ==> #[trigger] squares@[i] == square_of_index(i),
            opponent == position.to_move.other(),
            total == basic_sum(position@, k as int),
            -200 * k <= total <= 200 * k,
        decreases 64 - k,
    {
        let square = squares[k];
        let term: isize = match piece_at(&position.board, &square) {
            None => 0,
            Some(piece) => {
                let value: isize = match piece.kind {
                    PieceKind::King => 0,
                    PieceKind::Pawn => 10,
                    PieceKind::Rook => 50,
                    PieceKind::Bishop => 30,
                    PieceKind::Knight => 20,
                    PieceKind::Queen => 100,
                };
                let v = if position.is_attacked_by(&opponent, &square) {
                    value
                } else {
                    2 * value
                };
                if piece.color == position.to_move {
                    v
                } else {
                    -v
                }
            },
        };
        total = total + term;
        k = k + 1;
    }
    total
}

/// The richer evaluation of `position` for the side to move.
pub fn better_evaluation(position: &Position) -> (r: isize)
    requires
        position@.wf(),
    ensures
        r == better_score(position@),
        -EVAL_BOUND <= r <= EVAL_BOUND,
{
    let squares = all_squares();
    let mut total: isize = 0;
    let mut k: usize = 0;
    while k < 64
        invariant
            position@.wf(),
            k <= 64,
            squares@.len() == 64,
            forall|i: int| 0 <= i < 64 ==> #[trigger] squares@[i] == square_of_index(i),
            total == better_sum(position@, k as int),
            -20128 * k <= total <= 20128 * k,
        decreases 64 - k,
    {
        let square = squares[k];
        let term: isize = match piece_at(&position.board, &square) {
            None => 0,
            Some(piece) => {
                let value: isize = match piece.kind {
                    PieceKind::King => 10000,
                    PieceKind::Pawn => 100,
                    PieceKind::Rook => 500,
                    PieceKind::Bishop => 300,
                    PieceKind::Knight => 200,
                    PieceKind::Queen => 5000,
                };
                let mover = position.color_to_move(piece.color);
                let moves = mover.legal_moves_from_origin(&square);
                proof {
                    crate::bounds::lemma_legal_len(mover@, square);
                    assert(mover@ == with_mover(position@, piece.color));
                }
                let controlled = moves.len() as isize;
                let attacked: isize = if position.is_attacked_by(&piece.color.opposite(), &square) {
                    if piece.color == position.to_move {
                        -5
                    } else {
                        -value
                    }
                } else {
                    0
                };
                let t = value + controlled * 2 + attacked;
                if piece.color == position.to_move {
                    t
                } else {
                    -t
                }
            },
        };
        total = total + term;
        k = k + 1;
    }
    let mate_bonus: isize = if position.is_checkmate() {
        10000000
    } else {
        0
    };
    total + mate_bonus
}

/// Minus the two-ply alpha-beta score of `position` under the richer evaluation.
pub fn planner_evaluation(position: &Position) -> (r: isize)
    requires
        position@.wf(),
    ensures
        r == eval_score(Evaluation::Planner, position@),
        -EVAL_BOUND <= r <= EVAL_BOUND,
    decreases 1nat, 0nat, 0nat, 0nat,
{
    -alpha_beta_negamax(position, 2, Evaluation::Better, isize::MIN + 1, isize::MAX - 1)
}

/// The negamax score of `position` searched `depth` plies deep with
/// alpha-beta pruning in the window `(alpha, beta)`.
pub fn alpha_beta_negamax(
    position: &Position,
    depth: isize,
    evaluate: Evaluation,
    alpha: isize,
    beta: isize,
) -> (r: isize)
    requires
        position@.wf(),
        depth >= 0,
        alpha > isize::MIN,
        beta > isize::MIN,
    ensures
        r == ab_score(position@, depth as nat, evaluate, alpha as int, beta as int),
        -EVAL_BOUND <= r <= EVAL_BOUND,
    decreases rank(evaluate), depth + 1, 1nat, 0nat,
{
    if depth == 0 || position.is_checkmate() || position.is_stalemate() {
        return evaluate.evaluate(position);
    }
    proof {
        lemma_has_moves(position@);
    }
    let moves = position.all_legal_moves();
    let ghost alpha0 = alpha as int;
    let mut window_low = alpha;
    let mut best = isize::MIN;
    let ghost whole = ab_loop(position@, moves@, 0, depth as nat, evaluate, window_low as int, beta as int, best as int);
    assert(whole == ab_score(position@, depth as nat, evaluate, alpha0, beta as int));
    let mut i: usize = 0;
    while i < moves.len()
        invariant
            position@.wf(),
            depth >= 1,
            moves@ == position@.all_legal(),
            moves@.len() > 0,
            all_in_bounds(moves@),
            i <= moves@.len(),
            window_low > isize::MIN,
            beta > isize::MIN,
            i == 0 ==> best == isize::MIN,
            i > 0 ==> -EVAL_BOUND <= best <= EVAL_BOUND,
            ab_loop(position@, moves@, i as int, depth as nat, evaluate, window_low as int, beta as int, best as int) == whole,
            whole == ab_score(position@, depth as nat, evaluate, alpha0, beta as int),
            alpha0 == alpha as int,
        decreases moves@.len() - i,
    {
        let child = position.after_move(&moves[i]);
        let eval = -alpha_beta_negamax(&child, depth - 1, evaluate, -beta, -window_low);
        let ghost old_alpha = window_low as int;
        let ghost old_best = best as int;
        assert(eval == -ab_score(position@.after(moves@[i as int]), (depth - 1) as nat, evaluate, -beta, -old_alpha));
        if eval > best {
            best = eval;
            if eval > window_low {
                window_low = eval;
            }
            if eval >= beta {
                assert(ab_loop(position@, moves@, i as int, depth as nat, evaluate, old_alpha, beta as int, old_best) == eval);
                return best;
            }
        }
        i = i + 1;
    }
    best
}


/// The negamax score without pruning.
pub open spec fn negamax_score(p: PositionView, depth: nat, e: Evaluation) -> int
    decreases rank(e), depth + 1, 1nat, 0nat,
{
    if depth == 0 || p.checkmate() || p.stalemate() {
        eval_score(e, p)
    } else {
        negamax_loop(p, p.all_legal(), 0, depth, e, isize::MIN as int)
    }
}

/// The greatest negated child score from move `i` on, starting from `best`.
pub open spec fn negamax_loop(p: PositionView, ms: Seq<ChessMove>, i: int, depth: nat, e: Evaluation, best: int) -> int
    decreases rank(e), depth + 1, 0nat, ms.len() - i,
{
    if i >= ms.len() || i < 0 || depth == 0 {
        best
    } else {
        let v = -negamax_score(p.after(ms[i]), (depth - 1) as nat, e);
        negamax_loop(p, ms, i + 1, depth, e, if v > best { v } else { best })
    }
}

/// The minimax score: the side to move in `p` maximizes the evaluation when
/// `maximize`, and minimizes it otherwise.
pub open spec fn minimax_score(p: PositionView, depth: nat, maximize: bool, e: Evaluation) -> int
    decreases rank(e), depth + 1, 1nat, 0nat,
{
    if depth == 0 || p.checkmate() || p.stalemate() {
        eval_score(e, p)
    } else {
        minimax_loop(
            p,
            p.all_legal(),
            0,
            depth,
            maximize,
            e,
            if maximize { isize::MIN as int } else { isize::MAX as int },
        )
    }
}

pub open spec fn minimax_loop(
    p: PositionView,
    ms: Seq<ChessMove>,
    i: int,
    depth: nat,
    maximize: bool,
    e: Evaluation,
    acc: int,
) -> int
    decreases rank(e), depth + 1, 0nat, ms.len() - i,
{
    if i >= ms.len() || i < 0 || depth == 0 {
        acc
    } else {
        let v = minimax_score(p.after(ms[i]), (depth - 1) as nat, !maximize, e);
        let next = if maximize {
            if v > acc { v } else { acc }
        } else {
            if v < acc { v } else { acc }
        };
        minimax_loop(p, ms, i + 1, depth, maximize, e, next)
    }
}

/// The negamax score of `position` searched `depth` plies deep, without pruning.
pub fn negamax(position: &Position, depth: isize, evaluate: Evaluation) -> (r: isize)
    requires
        position@.wf(),
        depth >= 0,
    ensures
        r == negamax_score(position@, depth as nat, evaluate),
        -EVAL_BOUND <= r <= EVAL_BOUND,
    decreases rank(evaluate), depth + 1, 1nat, 0nat,
{
    if depth == 0 || position.is_checkmate() || position.is_stalemate() {
        return evaluate.evaluate(position);
    }
    proof {
        lemma_has_moves(position@);
    }
    let moves = position.all_legal_moves();
    let mut best = isize::MIN;
    let ghost whole = negamax_loop(position@, moves@, 0, depth as nat, evaluate, best as int);
    let mut i: usize = 0;
    while i < moves.len()
        invariant
            position@.wf(),
            depth >= 1,
            moves@ == position@.all_legal(),
            moves@.len() > 0,
            all_in_bounds(moves@),
            i <= moves@.len(),
            i == 0 ==> best == isize::MIN,
            i > 0 ==> -EVAL_BOUND <= best <= EVAL_BOUND,
            negamax_loop(position@, moves@, i as int, depth as nat, evaluate, best as int) == whole,
            whole == negamax_score(position@, depth as nat, evaluate),
        decreases moves@.len() - i,
    {
        let child = position.after_move(&moves[i]);
        let v = -negamax(&child, depth - 1, evaluate);
        if v > best {
            best = v;
        }
        i = i + 1;
    }
    best
}

/// The minimax score of `position` searched `depth` plies deep.
pub fn minimax(position: &Position, depth: isize, maximize: bool, evaluate: Evaluation) -> (r: isize)
    requires
        position@.wf(),
        depth >= 0,
    ensures
        r == minimax_score(position@, depth as nat, maximize, evaluate),
        -EVAL_BOUND <= r <= EVAL_BOUND,
    decreases rank(evaluate), depth + 1, 1nat, 0nat,
{
    if depth == 0 || position.is_checkmate() || position.is_stalemate() {
        return evaluate.evaluate(position);
    }
    proof {
        lemma_has_moves(position@);
    }
    let moves = position.all_legal_moves();
    let mut acc = if maximize {
        isize::MIN
    } else {
        isize::MAX
    };
    let ghost whole = minimax_loop(position@, moves@, 0, depth as nat, maximize, evaluate, acc as int);
    let mut i: usize = 0;
    while i < moves.len()
        invariant
            position@.wf(),
            depth >= 1,
            moves@ == position@.all_legal(),
            moves@.len() > 0,
            all_in_bounds(moves@),
            i <= moves@.len(),
            i == 0 ==> acc == if maximize { isize::MIN } else { isize::MAX },
            i > 0 ==> -EVAL_BOUND <= acc <= EVAL_BOUND,
            minimax_loop(position@, moves@, i as int, depth as nat, maximize, evaluate, acc as int) == whole,
            whole == minimax_score(position@, depth as nat, maximize, evaluate),
        decreases moves@.len() - i,
    {
        let child = position.after_move(&moves[i]);
        let v = minimax(&child, depth - 1, !maximize, evaluate);
        if maximize {
            if v > acc {
                acc = v;
            }
        } else {
            if v < acc {
                acc = v;
            }
        }
        i = i + 1;
    }
    acc
}

/// Entry `i` has the greatest score of `s`, and no earlier entry has it.
pub open spec fn is_first_max(s: Seq<(isize, ChessMove)>, i: int) -> bool {
    &&& 0 <= i < s.len()
    &&& forall|j: int| 0 <= j < s.len() ==> s[j].0 <= s[i].0
    &&& forall|j: int| 0 <= j < i ==> s[j].0 < s[i].0
}

/// Entry `i` has the least score of `s`, and no earlier entry has it.
pub open spec fn is_first_min(s: Seq<(isize, ChessMove)>, i: int) -> bool {
    &&& 0 <= i < s.len()
    &&& forall|j: int| 0 <= j < s.len() ==> s[j].0 >= s[i].0
    &&& forall|j: int| 0 <= j < i ==> s[j].0 > s[i].0
}

/// Each legal move, in generation order, with the score under `evaluation`
/// of the position it leads to.
pub fn moves_with_evaluation(position: &Position, evaluation: Evaluation) -> (r: Vec<(isize, ChessMove)>)
    requires
        position@.wf(),
    ensures
        r@.len() == position@.all_legal().len(),
        forall|i: int|
            0 <= i < r@.len() ==> (#[trigger] r@[i]).1 == position@.all_legal()[i] && r@[i].0
                == eval_score(evaluation, position@.after(position@.all_legal()[i])),
{
    let all_moves = position.all_legal_moves();
    let mut scored: Vec<(isize, ChessMove)> = Vec::new();
    let mut i: usize = 0;
    while i < all_moves.len()
        invariant
            position@.wf(),
            all_moves@ == position@.all_legal(),
            all_in_bounds(all_moves@),
            i <= all_moves@.len(),
            scored@.len() == i,
            forall|k: int|
                0 <= k < i ==> (#[trigger] scored@[k]).1 == all_moves@[k] && scored@[k].0
                    == eval_score(evaluation, position@.after(all_moves@[k])),
        decreases all_moves@.len() - i,
    {
        let chess_move = all_moves[i];
        let child = position.after_move(&chess_move);
        let score = evaluation.evaluate(&child);
        scored.push((score, chess_move));
        i = i + 1;
    }
    scored
}

/// The move of the first entry with the greatest score.
pub fn first_move_with_max_evaluation(moves_by_evaluation: &Vec<(isize, ChessMove)>) -> (r: ChessMove)
    requires
        moves_by_evaluation@.len() > 0,
    ensures
        exists|i: int| is_first_max(moves_by_evaluation@, i) && r == moves_by_evaluation@[i].1,
{
    let s = moves_by_evaluation;
    let mut best: usize = 0;
    let mut i: usize = 1;
    while i < s.len()
        invariant
            s@.len() > 0,
            1 <= i <= s@.len(),
            best < i,
            forall|j: int| 0 <= j < i ==> s@[j].0 <= s@[best as int].0,
            forall|j: int| 0 <= j < best ==> s@[j].0 < s@[best as int].0,
        decreases s@.len() - i,
    {
        if s[i].0 > s[best].0 {
            best = i;
        }
        i = i + 1;
    }
    assert(is_first_max(s@, best as int));
    s[best].1
}

/// The move of the first entry with the least score.
pub fn first_move_with_min_evaluation(moves_by_evaluation: &Vec<(isize, ChessMove)>) -> (r: ChessMove)
    requires
        moves_by_evaluation@.len() > 0,
    ensures
        exists|i: int| is_first_min(moves_by_evaluation@, i) && r == moves_by_evaluation@[i].1,
{
    let s = moves_by_evaluation;
    let mut best: usize = 0;
    let mut i: usize = 1;
    while i < s.len()
        invariant
            s@.len() > 0,
            1 <= i <= s@.len(),
            best < i,
            forall|j: int| 0 <= j < i ==> s@[j].0 >= s@[best as int].0,
            forall|j: int| 0 <= j < best ==> s@[j].0 > s@[best as int].0,
        decreases s@.len() - i,
    {
        if s[i].0 < s[best].0 {
            best = i;
        }
        i = i + 1;
    }
    assert(is_first_min(s@, best as int));
    s[best].1
}

} // verus!
