use vstd::prelude::*;
use crate::base::{Color, Direction, Position};
use crate::base::direction::{all_directions, diagonal_directions, spec_all_directions, spec_diagonal_directions, spec_straight_directions, straight_directions};
use crate::figure::{Figure, FigureType};
use crate::game::Board;
use crate::game::board::{knight_count_from, ray_targets};

verus! {

/// The number of fields a figure of `color` on `pos` reaches along the given directions,
/// counting from the k-th direction on.
pub open spec fn spec_count_rays(cells: Seq<Option<Figure>>, pos: Position, color: Color, dirs: Seq<Direction>, k: int) -> nat
    decreases dirs.len() - k,
{
    if k >= dirs.len() || k < 0 {
        0
    } else {
        ray_targets(cells, pos, dirs[k], color).len() + spec_count_rays(cells, pos, color, dirs, k + 1)
    }
}

/// The number of moves a figure reaches: rooks, bishops and queens along their lines, knights
/// as `Position::count_reachable_knight_positions` counts; pawns and kings are not counted.
pub open spec fn spec_count_reachable_moves(fig_type: FigureType, color: Color, pos: Position, cells: Seq<Option<Figure>>) -> nat {
    match fig_type {
        FigureType::Pawn => 0,
        FigureType::Rook => spec_count_rays(cells, pos, color, spec_straight_directions(), 0),
        FigureType::Knight => knight_count_from(cells, pos, color, 0),
        FigureType::Bishop => spec_count_rays(cells, pos, color, spec_diagonal_directions(), 0),
        FigureType::Queen => spec_count_rays(cells, pos, color, spec_all_directions(), 0),
        FigureType::King => 0,
    }
}

pub fn count_reachable_moves(fig_type: FigureType, color: Color, pos: Position, board: &Board) -> (r: usize)
    requires
        pos.wf(),
    ensures
        r == spec_count_reachable_moves(fig_type, color, pos, board@),
        r <= 64,
{
    match fig_type {
        FigureType::Pawn => 0,
        FigureType::Rook => count_reachable_rook_moves(color, pos, board),
        FigureType::Knight => count_reachable_knight_moves(color, pos, board),
        FigureType::Bishop => count_reachable_bishop_moves(color, pos, board),
        FigureType::Queen => count_reachable_queen_moves(color, pos, board),
        FigureType::King => 0,
    }
}

fn count_rays(color: Color, pos: Position, board: &Board, dirs: &[Direction]) -> (r: usize)
    requires
        pos.wf(),
        dirs@.len() <= 8,
    ensures
        r == spec_count_rays(board@, pos, color, dirs@, 0),
        r <= 64,
{
    let mut counter: usize = 0;
    let mut k = dirs.len();
    while k > 0
        invariant
            pos.wf(),
            k <= dirs@.len() <= 8,
            counter == spec_count_rays(board@, pos, color, dirs@, k as int),
            counter <= 8 * (dirs@.len() - k),
        decreases k,
    {
        k = k - 1;
        let n = pos.count_reachable_directed_positions(color, dirs[k], board);
        proof {
            crate::game::board::lemma_ray_targets_len(board@, pos, dirs@[k as int], color);
        }
        counter = counter + n;
    }
    counter
}

fn count_reachable_rook_moves(color: Color, rook_pos: Position, board: &Board) -> (r: usize)
    requires
        rook_pos.wf(),
    ensures
        r == spec_count_rays(board@, rook_pos, color, spec_straight_directions(), 0),
        r <= 64,
{
    let dirs = straight_directions();
    count_rays(color, rook_pos, board, &dirs)
}

fn count_reachable_knight_moves(color: Color, knight_pos: Position, board: &Board) -> (r: usize)
    requires
        knight_pos.wf(),
    ensures
        r == knight_count_from(board@, knight_pos, color, 0),
        r <= 64,
{
    knight_pos.count_reachable_knight_positions(color, board)
}

fn count_reachable_bishop_moves(color: Color, bishop_pos: Position, board: &Board) -> (r: usize)
    requires
        bishop_pos.wf(),
    ensures
        r == spec_count_rays(board@, bishop_pos, color, spec_diagonal_directions(), 0),
        r <= 64,
{
    let dirs = diagonal_directions();
    count_rays(color, bishop_pos, board, &dirs)
}

fn count_reachable_queen_moves(color: Color, queen_pos: Position, board: &Board) -> (r: usize)
    requires
        queen_pos.wf(),
    ensures
        r == spec_count_rays(board@, queen_pos, color, spec_all_directions(), 0),
        r <= 64,
{
    let dirs = all_directions();
    count_rays(color, queen_pos, board, &dirs)
}

} // verus!
