use vstd::prelude::*;
use crate::base::{Color, Direction, Position};
use crate::game::Board;
use crate::figure::Figure;
use crate::figure::functions::check_search::{
    is_king_attackable_by_knight, is_king_forward_diagonal_attackable, is_king_straight_attackable,
    spec_forward_diagonal_attackable, spec_knight_attackable, spec_straight_attackable,
};

verus! {

/// Whether a king of `color` passing over `king_pos` while castling would be attacked from
/// the front, from a forward diagonal, or by a knight.
pub open spec fn spec_attackable_while_castling(cells: Seq<Option<Figure>>, king_pos: Position, color: Color) -> bool {
    let (forward_left, forward, forward_right) = Direction::spec_forward_directions(color);
    ||| spec_straight_attackable(cells, king_pos, color, forward)
    ||| spec_forward_diagonal_attackable(cells, king_pos, color, forward_left)
    ||| spec_forward_diagonal_attackable(cells, king_pos, color, forward_right)
    ||| spec_knight_attackable(cells, king_pos, color)
}

/// Queen side castling is allowed when the fields b to d of the king's row are empty, the king
/// is not attackable (from the front, a forward diagonal or by a knight) on c, d and e, and not
/// along its row from the right; the king then moves to c.
pub open spec fn spec_queen_side_castling_allowed(cells: Seq<Option<Figure>>, color: Color, king_pos: Position) -> Option<Position> {
    let row = king_pos.row as int;
    if (forall|c: int| 1 <= c <= 3 ==> cells[#[trigger] Position::spec_at(c, row).index as int] is None)
        && (forall|c: int| 2 <= c <= 4 ==> !spec_attackable_while_castling(cells, #[trigger] Position::spec_at(c, row), color))
        && !spec_straight_attackable(cells, king_pos, color, Direction::Right) {
        Some(Position::spec_at(2, row))
    } else {
        None
    }
}

/// King side castling is allowed when the fields f and g of the king's row are empty, the king
/// is not attackable (from the front, a forward diagonal or by a knight) on e, f and g, and not
/// along its row from the left; the king then moves to g.
pub open spec fn spec_king_side_castling_allowed(cells: Seq<Option<Figure>>, color: Color, king_pos: Position) -> Option<Position> {
    let row = king_pos.row as int;
    if (forall|c: int| 5 <= c <= 6 ==> cells[#[trigger] Position::spec_at(c, row).index as int] is None)
        && (forall|c: int| 4 <= c <= 6 ==> !spec_attackable_while_castling(cells, #[trigger] Position::spec_at(c, row), color))
        && !spec_straight_attackable(cells, king_pos, color, Direction::Left) {
        Some(Position::spec_at(6, row))
    } else {
        None
    }
}

/*
 * it is assumed that king and the respective rook haven't moved yet
 * and that the game is played in classical chess.
 */
pub fn is_queen_side_castling_allowed(color: Color, king_pos: Position, board: &Board) -> (r: Option<Position>)
    requires
        king_pos.wf(),
    ensures
        r == spec_queen_side_castling_allowed(board@, color, king_pos),
        r matches Some(p) ==> p.wf(),
{
    let row = king_pos.row;
    let ghost g_row = row as int;
    // fields between rook and king have to be free
    let mut column: i8 = 1;
    while column <= 3
        invariant
            king_pos.wf(),
            row == king_pos.row,
            g_row == row as int,
            1 <= column <= 4,
            forall|c: int| 1 <= c < column ==> board@[#[trigger] Position::spec_at(c, g_row).index as int] is None,
        decreases 4 - column,
    {
        if !board.is_empty(Position::new_unchecked(column, row)) {
            return None;
        }
        column += 1;
    }
    // king can't be in check from forward, or diagonal direction on from king start to king end pos
    let mut column: i8 = 2;
    while column <= 4
        invariant
            king_pos.wf(),
            row == king_pos.row,
            g_row == row as int,
            2 <= column <= 5,
            forall|c: int| 2 <= c < column ==> !spec_attackable_while_castling(board@, #[trigger] Position::spec_at(c, g_row), color),
        decreases 5 - column,
    {
        if is_king_is_attackable_while_castling(Position::new_unchecked(column, row), color, board) {
            return None;
        }
        column += 1;
    }
    // king is not allowed to be attackable on his start field from the side
    if is_king_straight_attackable(king_pos, color, Direction::Right, board) {
        return None;
    }
    Some(Position::new_unchecked(2, row))
}

/*
 * it is assumed that king and the respective rook haven't moved yet
 * and that the game is played in classical chess.
 */
pub fn is_king_side_castling_allowed(color: Color, king_pos: Position, board: &Board) -> (r: Option<Position>)
    requires
        king_pos.wf(),
    ensures
        r == spec_king_side_castling_allowed(board@, color, king_pos),
        r matches Some(p) ==> p.wf(),
{
    let row = king_pos.row;
    let ghost g_row = row as int;
    // fields between rook and king have to be free
    let mut column: i8 = 5;
    while column <= 6
        invariant
            king_pos.wf(),
            row == king_pos.row,
            g_row == row as int,
            5 <= column <= 7,
            forall|c: int| 5 <= c < column ==> board@[#[trigger] Position::spec_at(c, g_row).index as int] is None,
        decreases 7 - column,
    {
        if !board.is_empty(Position::new_unchecked(column, row)) {
            return None;
        }
        column += 1;
    }
    // king can't be in check from forward, or diagonal direction on from king start to king end pos
    let mut column: i8 = 4;
    while column <= 6
        invariant
            king_pos.wf(),
            row == king_pos.row,
            g_row == row as int,
            4 <= column <= 7,
            forall|c: int| 4 <= c < column ==> !spec_attackable_while_castling(board@, #[trigger] Position::spec_at(c, g_row), color),
        decreases 7 - column,
    {
        if is_king_is_attackable_while_castling(Position::new_unchecked(column, row), color, board) {
            return None;
        }
        column += 1;
    }
    // king is not allowed to be attackable on his start field from the side
    if is_king_straight_attackable(king_pos, color, Direction::Left, board) {
        return None;
    }
    Some(Position::new_unchecked(6, row))
}

pub fn is_king_is_attackable_while_castling(king_pos: Position, color: Color, board: &Board) -> (r: bool)
    requires
        king_pos.wf(),
    ensures
        r == spec_attackable_while_castling(board@, king_pos, color),
{
    let (forward_left, forward, forward_right) = Direction::forward_directions(color);
    if is_king_straight_attackable(king_pos, color, forward, board) {
        return true;
    }
    if is_king_forward_diagonal_attackable(king_pos, color, forward_left, board)
        || is_king_forward_diagonal_attackable(king_pos, color, forward_right, board) {
        return true;
    }
    is_king_attackable_by_knight(king_pos, color, board)
}

} // verus!
