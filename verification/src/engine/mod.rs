use vstd::prelude::*;
use crate::base::a_move::{Move, Moves};
use crate::game::StoppedReason;

pub mod pruner;
pub mod static_eval;

pub use pruner::Pruner;

verus! {

/// Why a game ended in a draw.
#[derive(Debug, Copy, Clone, PartialEq, Eq, Structural, PartialOrd, Ord, Hash)]
pub enum DrawReason {
    StaleMate,
    InsufficientMaterial,
    ThreeTimesRepetition,
    NoChangeIn50Moves,
}

impl DrawReason {
    /// The draw a stopped game counts as; a game stopped for no change in fifty moves counts as
    /// a draw by repetition.
    pub open spec fn spec_from(reason: StoppedReason) -> DrawReason {
        match reason {
            StoppedReason::InsufficientMaterial => DrawReason::InsufficientMaterial,
            StoppedReason::ThreeTimesRepetition => DrawReason::ThreeTimesRepetition,
            _ => DrawReason::ThreeTimesRepetition,
        }
    }

    /// The draw a stopped game counts as. A game stopped because a king could be taken is no
    /// draw.
    pub fn from(reason: StoppedReason) -> (r: DrawReason)
        requires
            reason != StoppedReason::KingInCheckAfterMove,
        ensures
            r == Self::spec_from(reason),
    {
        match reason {
            StoppedReason::InsufficientMaterial => DrawReason::InsufficientMaterial,
            StoppedReason::ThreeTimesRepetition => DrawReason::ThreeTimesRepetition,
            _ => DrawReason::ThreeTimesRepetition,
        }
    }
}

/// How a game ended, seen from the engine.
#[derive(Debug, Copy, Clone, PartialEq, Eq, Structural)]
pub enum GameEndResult {
    EngineWon,
    EngineLost,
    Draw(DrawReason),
}

/// How a game that stopped after the engine's move ended: a king that could be taken means the
/// engine won, every other reason is the draw of the same name.
pub fn game_end_result_of(stopped_reason: StoppedReason) -> (r: GameEndResult)
    ensures
        r == (match stopped_reason {
            StoppedReason::KingInCheckAfterMove => GameEndResult::EngineWon,
            StoppedReason::InsufficientMaterial => GameEndResult::Draw(DrawReason::InsufficientMaterial),
            StoppedReason::ThreeTimesRepetition => GameEndResult::Draw(DrawReason::ThreeTimesRepetition),
            StoppedReason::NoChangeIn50Moves => GameEndResult::Draw(DrawReason::NoChangeIn50Moves),
        }),
{
    match stopped_reason {
        StoppedReason::KingInCheckAfterMove => GameEndResult::EngineWon,
        StoppedReason::InsufficientMaterial => GameEndResult::Draw(DrawReason::InsufficientMaterial),
        StoppedReason::ThreeTimesRepetition => GameEndResult::Draw(DrawReason::ThreeTimesRepetition),
        StoppedReason::NoChangeIn50Moves => GameEndResult::Draw(DrawReason::NoChangeIn50Moves),
    }
}

/// The ways a position can be evaluated statically.
#[derive(Debug, Copy, Clone, PartialEq, Eq, Structural)]
pub enum StaticEvalType {
    Default,
}


/// The moves with the ones at `i` and `j` exchanged.
pub open spec fn swapped(s: Seq<Move>, i: int, j: int) -> Seq<Move> {
    s.update(i, s[j]).update(j, s[i])
}

/// Exchanges the move at every other index `start` from `start` on, below `(n - 1) / 2`, with
/// the one at `n - start`.
pub open spec fn scrambled_from(s: Seq<Move>, start: int) -> Seq<Move>
    decreases s.len() - start,
{
    if start < 1 || start >= (s.len() - 1) / 2 {
        s
    } else {
        proof {
            assert(swapped(s, start, s.len() - start).len() == s.len());
        }
        scrambled_from(swapped(s, start, s.len() - start), start + 2)
    }
}

/// The order the search tries the moves in: with more than four moves, the moves at the odd
/// indices of the first half are exchanged with their mirror images `n - i`.
pub open spec fn scrambled(s: Seq<Move>) -> Seq<Move> {
    if s.len() > 4 {
        scrambled_from(s, 1)
    } else {
        s
    }
}

// improves the performance of alpha-beta pruning
pub fn scramble(moves: &Moves) -> (r: Moves)
    ensures
        r@ == scrambled(moves@),
{
    let mut clones = moves.clone();
    let nr_of_moves = moves.len();
    if nr_of_moves > 4 {
        let end = (nr_of_moves - 1) / 2;
        let mut start: usize = 1;
        while start < end
            invariant
                nr_of_moves == moves@.len(),
                nr_of_moves > 4,
                end == (nr_of_moves - 1) / 2,
                1 <= start <= end + 1,
                clones@.len() == nr_of_moves,
                scrambled_from(clones@, start as int) == scrambled(moves@),
            decreases end + 2 - start,
        {
            clones.swap(start, nr_of_moves - start);
            start = start + 2;
        }
    }
    clones
}

} // verus!
