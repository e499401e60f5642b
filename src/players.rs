use vstd::prelude::*;
use crate::chess_move::ChessMove;
use crate::engine::{
    better_evaluation, eval_score, first_move_with_max_evaluation, first_move_with_min_evaluation,
    is_first_max, is_first_min, moves_with_evaluation, planner_evaluation, Evaluation,
};
use crate::player::Player;
use crate::position::{count_upto, Position};
use crate::rules::PositionView;

verus! {

/// The legal moves of `p` scored under `e`, as `moves_with_evaluation` lists them.
pub open spec fn scored_moves(p: PositionView, e: Evaluation) -> Seq<(isize, ChessMove)> {
    Seq::new(p.all_legal().len(), |i: int| (eval_score(e, p.after(p.all_legal()[i])) as isize, p.all_legal()[i]))
}

/// `m` is the first legal move whose resulting position scores highest under `e`.
pub open spec fn is_best_move(p: PositionView, e: Evaluation, m: ChessMove) -> bool {
    exists|i: int| is_first_max(scored_moves(p, e), i) && m == p.all_legal()[i]
}

/// `m` is the first legal move whose resulting position scores lowest under `e`.
pub open spec fn is_least_move(p: PositionView, e: Evaluation, m: ChessMove) -> bool {
    exists|i: int| is_first_min(scored_moves(p, e), i) && m == p.all_legal()[i]
}

/// Move `m` lowers the number of pieces of the side not to move.
pub open spec fn captures(p: PositionView, m: ChessMove) -> bool {
    count_upto(p.after(m), p.to_move.other(), 64) < count_upto(p, p.to_move.other(), 64)
}

proof fn lemma_scored(position: &Position, e: Evaluation, s: Seq<(isize, ChessMove)>)
    requires
        s.len() == position@.all_legal().len(),
        forall|i: int|
            0 <= i < s.len() ==> (#[trigger] s[i]).1 == position@.all_legal()[i] && s[i].0
                == eval_score(e, position@.after(position@.all_legal()[i])),
    ensures
        s == scored_moves(position@, e),
{
    assert(s =~= scored_moves(position@, e));
}

/// Relies on `rand::random_range`: a value drawn from `0..n`, which is never
/// empty here.
#[verifier::external_body]
fn random_below(n: usize) -> (r: usize)
    requires
        n > 0,
    ensures
        r < n,
{
    rand::random_range(0..n)
}

/// Plays the first legal move.
pub struct FirstMovePlayer;

/// Plays a legal move drawn at random.
pub struct RandomPlayer;

/// Plays a capture drawn at random when there is one, and any legal move otherwise.
pub struct RandomCapturePrioPlayer;

/// Plays the first move whose resulting position scores best under the basic evaluation.
pub struct BasicEvaluationPlayer;

/// Plays the first move whose resulting position scores worst for the
/// opponent under the richer evaluation.
pub struct BetterEvaluationPlayer {}

/// Plays the first move whose resulting position scores best after a
/// two-ply alpha-beta search.
pub struct Planner;

impl FirstMovePlayer {
    /// The first legal move in generation order.
    pub fn choose_move(&self, position: &Position) -> (r: ChessMove)
        requires
            position@.wf(),
            position@.all_legal().len() > 0,
        ensures
            r == position@.all_legal()[0],
    {
        let moves = position.all_legal_moves();
        moves[0]
    }
}

impl Player for FirstMovePlayer {
    fn name(&self) -> (r: String) {
        "First available move".to_string()
    }

    fn offer_move(&self, position: &Position) -> (r: ChessMove)
        ensures
            r == position@.all_legal()[0],
    {
        let r = self.choose_move(position);
        assert(position@.all_legal()[0] == r);
        r
    }

    fn evalutate(&self, _position: &Position) -> (r: isize)
        ensures
            r == 0,
    {
        0
    }
}

impl RandomPlayer {
    /// A legal move drawn at random.
    pub fn choose_move(&self, position: &Position) -> (r: ChessMove)
        requires
            position@.wf(),
            position@.all_legal().len() > 0,
        ensures
            position@.all_legal().contains(r),
    {
        let moves = position.all_legal_moves();
        let i = random_below(moves.len());
        assert(moves@[i as int] == moves[i as int]);
        moves[i]
    }
}

impl Player for RandomPlayer {
    fn name(&self) -> (r: String) {
        "Random".to_string()
    }

    fn offer_move(&self, position: &Position) -> (r: ChessMove) {
        self.choose_move(position)
    }

    fn evalutate(&self, _position: &Position) -> (r: isize)
        ensures
            r == 0,
    {
        0
    }
}

impl RandomCapturePrioPlayer {
    /// A legal move; a capture whenever one is legal.
    pub fn choose_move(&self, position: &Position) -> (r: ChessMove)
        requires
            position@.wf(),
            position@.all_legal().len() > 0,
        ensures
            position@.all_legal().contains(r),
            (exists|m: ChessMove| position@.all_legal().contains(m) && captures(position@, m))
                ==> captures(position@, r),
    {
        let moves = position.all_legal_moves();
        let opponent = position.to_move.opposite();
        let before = position.piece_count(opponent);
        let mut capturing: Vec<ChessMove> = Vec::new();
        let mut i: usize = 0;
        while i < moves.len()
            invariant
                position@.wf(),
                moves@ == position@.all_legal(),
                crate::movegen::all_in_bounds(moves@),
                opponent == position.to_move.other(),
                before == count_upto(position@, opponent, 64),
                i <= moves@.len(),
                forall|k: int| 0 <= k < capturing@.len() ==> moves@.contains(#[trigger] capturing@[k]) && captures(position@, capturing@[k]),
                forall|k: int| 0 <= k < i && captures(position@, #[trigger] moves@[k]) ==> capturing@.len() > 0,
            decreases moves@.len() - i,
        {
            let child = position.after_move(&moves[i]);
            if child.piece_count(opponent) < before {
                capturing.push(moves[i]);
                assert(moves@.contains(moves@[i as int]));
            }
            i = i + 1;
        }
        if capturing.len() > 0 {
            let k = random_below(capturing.len());
            assert(moves@.contains(capturing@[k as int]));
            capturing[k]
        } else {
            let k = random_below(moves.len());
            assert(moves@.contains(moves@[k as int]));
            moves[k]
        }
    }
}

impl Player for RandomCapturePrioPlayer {
    fn name(&self) -> (r: String) {
        "Prioritize Capture".to_string()
    }

    fn offer_move(&self, position: &Position) -> (r: ChessMove)
        ensures
            (exists|m: ChessMove| position@.all_legal().contains(m) && captures(position@, m))
                ==> captures(position@, r),
    {
        self.choose_move(position)
    }

    fn evalutate(&self, _position: &Position) -> (r: isize)
        ensures
            r == 0,
    {
        0
    }
}

impl BasicEvaluationPlayer {
    /// The first legal move whose resulting position scores highest under the basic evaluation.
    pub fn choose_move(&self, position: &Position) -> (r: ChessMove)
        requires
            position@.wf(),
            position@.all_legal().len() > 0,
        ensures
            is_best_move(position@, Evaluation::Basic, r),
            position@.all_legal().contains(r),
    {
        let scored = moves_with_evaluation(position, Evaluation::Basic);
        proof {
            lemma_scored(position, Evaluation::Basic, scored@);
        }
        let r = first_move_with_max_evaluation(&scored);
        let ghost i = choose|i: int| is_first_max(scored@, i) && r == scored@[i].1;
        assert(position@.all_legal()[i] == r);
        r
    }
}

impl Player for BasicEvaluationPlayer {
    fn name(&self) -> (r: String) {
        "Basic Evaluation".to_string()
    }

    fn offer_move(&self, position: &Position) -> (r: ChessMove)
        ensures
            is_best_move(position@, Evaluation::Basic, r),
    {
        self.choose_move(position)
    }

    fn evalutate(&self, position: &Position) -> (r: isize)
        ensures
            r == eval_score(Evaluation::Basic, position@),
    {
        crate::engine::basic_evaluation(position)
    }
}

impl BetterEvaluationPlayer {
    /// The first legal move whose resulting position scores lowest, for
    /// the opponent then to move, under the richer evaluation.
    pub fn choose_move(&self, position: &Position) -> (r: ChessMove)
        requires
            position@.wf(),
            position@.all_legal().len() > 0,
        ensures
            is_least_move(position@, Evaluation::Better, r),
            position@.all_legal().contains(r),
    {
        let scored = moves_with_evaluation(position, Evaluation::Better);
        proof {
            lemma_scored(position, Evaluation::Better, scored@);
        }
        let r = first_move_with_min_evaluation(&scored);
        let ghost i = choose|i: int| is_first_min(scored@, i) && r == scored@[i].1;
        assert(position@.all_legal()[i] == r);
        r
    }
}

impl Player for BetterEvaluationPlayer {
    fn name(&self) -> (r: String) {
        "Better evaluation".to_string()
    }

    fn offer_move(&self, position: &Position) -> (r: ChessMove)
        ensures
            is_least_move(position@, Evaluation::Better, r),
    {
        self.choose_move(position)
    }

    fn evalutate(&self, position: &Position) -> (r: isize)
        ensures
            r == -eval_score(Evaluation::Better, position@),
    {
        -better_evaluation(position)
    }
}

impl Planner {
    /// The first legal move whose resulting position scores highest under
    /// the planner evaluation.
    pub fn choose_move(&self, position: &Position) -> (r: ChessMove)
        requires
            position@.wf(),
            position@.all_legal().len() > 0,
        ensures
            is_best_move(position@, Evaluation::Planner, r),
            position@.all_legal().contains(r),
    {
        let scored = moves_with_evaluation(position, Evaluation::Planner);
        proof {
            lemma_scored(position, Evaluation::Planner, scored@);
        }
        let r = first_move_with_max_evaluation(&scored);
        let ghost i = choose|i: int| is_first_max(scored@, i) && r == scored@[i].1;
        assert(position@.all_legal()[i] == r);
        r
    }
}

impl Player for Planner {
    fn name(&self) -> (r: String) {
        "Planner".to_string()
    }

    fn offer_move(&self, position: &Position) -> (r: ChessMove)
        ensures
            is_best_move(position@, Evaluation::Planner, r),
    {
        self.choose_move(position)
    }

    fn evalutate(&self, position: &Position) -> (r: isize)
        ensures
            r == eval_score(Evaluation::Planner, position@),
    {
        planner_evaluation(position)
    }
}

} // verus!
