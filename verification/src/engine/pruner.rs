use vstd::prelude::*;
use crate::game::MoveStats;

verus! {

/// How deep the search goes, in half steps: in general, after a pawn moved, and after a figure
/// was caught.
#[derive(Debug, Copy, Clone, PartialEq, Eq, Structural)]
pub struct Pruner {
    half_step_depth: usize,
    half_step_depth_after_pawn_moved: usize,
    half_step_depth_after_figure_caught: usize,
}

impl Pruner {
    pub closed spec fn depth(self) -> nat {
        self.half_step_depth as nat
    }

    pub closed spec fn depth_after_pawn_moved(self) -> nat {
        self.half_step_depth_after_pawn_moved as nat
    }

    pub closed spec fn depth_after_figure_caught(self) -> nat {
        self.half_step_depth_after_figure_caught as nat
    }

    /// A pruner searching the given numbers of full steps; they may not decrease from the
    /// first to the last.
    pub fn new(step_depth: usize, step_depth_after_pawn_moved: usize, step_depth_after_figure_caught: usize) -> (r: Pruner)
        requires
            step_depth <= step_depth_after_pawn_moved,
            step_depth_after_pawn_moved <= step_depth_after_figure_caught,
            step_depth_after_figure_caught * 2 <= usize::MAX,
        ensures
            r.depth() == step_depth * 2,
            r.depth_after_pawn_moved() == step_depth_after_pawn_moved * 2,
            r.depth_after_figure_caught() == step_depth_after_figure_caught * 2,
    {
        Pruner {
            half_step_depth: step_depth * 2,
            half_step_depth_after_pawn_moved: step_depth_after_pawn_moved * 2,
            half_step_depth_after_figure_caught: step_depth_after_figure_caught * 2,
        }
    }

    /// The search stops at its depth, at the depth after a pawn moved if the latest or the move
    /// before moved a pawn, and at the depth after a figure was caught if the latest move caught
    /// one.
    pub fn should_stop_min_max_ing(&self, current_half_step: usize, new_stats: MoveStats, old_stats: MoveStats) -> (r: bool)
        ensures
            r == (current_half_step >= self.depth() || ((new_stats.did_move_pawn || old_stats.did_move_pawn)
                && current_half_step >= self.depth_after_pawn_moved()) || (new_stats.did_catch_figure
                && current_half_step >= self.depth_after_figure_caught())),
    {
        (current_half_step >= self.half_step_depth) || ((new_stats.did_move_pawn || old_stats.did_move_pawn)
            && current_half_step >= self.half_step_depth_after_pawn_moved) || (new_stats.did_catch_figure
            && current_half_step >= self.half_step_depth_after_figure_caught)
    }
}

} // verus!
