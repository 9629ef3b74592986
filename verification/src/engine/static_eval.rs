use vstd::prelude::*;
use crate::base::{Color, Direction, Position};
use crate::figure::{Figure, FigureType};
use crate::game::GameState;

verus! {

/// Whether a pawn of `color` stands one step from `pawn_pos` in direction `backward`.
pub open spec fn protected_from(cells: Seq<Option<Figure>>, pawn_pos: Position, color: Color, backward: Direction) -> bool {
    match pawn_pos.spec_step(backward) {
        Some(q) => cells[q.index as int] matches Some(f) && f.fig_type == FigureType::Pawn && f.color == color,
        None => false,
    }
}

/// Whether the pawn on `pawn_pos` is covered by a pawn of its own color standing diagonally
/// behind it, on the left or on the right.
pub fn is_protected(
    game_state: &GameState,
    pawn_pos: Position,
    color: Color,
    backward_left: Direction,
    backward_right: Direction,
) -> (r: bool)
    requires
        pawn_pos.wf(),
    ensures
        r == (protected_from(game_state.board@, pawn_pos, color, backward_left) || protected_from(
            game_state.board@,
            pawn_pos,
            color,
            backward_right,
        )),
{
    if let Some(pos) = pawn_pos.step(backward_left) {
        if let Some(figure) = game_state.board.get_figure(pos) {
            if figure.fig_type == FigureType::Pawn && figure.color == color {
                return true;
            }
        }
    }
    if let Some(pos) = pawn_pos.step(backward_right) {
        if let Some(figure) = game_state.board.get_figure(pos) {
            if figure.fig_type == FigureType::Pawn && figure.color == color {
                return true;
            }
        }
    }
    false
}

} // verus!
