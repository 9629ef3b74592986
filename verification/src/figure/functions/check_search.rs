use vstd::prelude::*;
use crate::base::{Color, Direction, Position};
use crate::base::a_move::{CastlingType, Move, MoveType};
use crate::figure::{Figure, FigureType};
use crate::game::Board;
use crate::game::board::{first_occupied, knight_targets, lemma_knight_targets_fields, lemma_steps_left, path_free, steps_left};

verus! {

/// The type of the first figure seen from `king_pos` in direction `d` if it belongs to the
/// opponent, together with whether it stands right next to the king.
pub open spec fn spec_first_opposite(cells: Seq<Option<Figure>>, king_pos: Position, king_color: Color, d: Direction) -> Option<(FigureType, bool)> {
    match first_occupied(cells, king_pos, d) {
        None => None,
        Some(q) => {
            let f = cells[q.index as int]->0;
            if f.color == king_color {
                None
            } else {
                Some((f.fig_type, Some(q) == king_pos.spec_step(d)))
            }
        },
    }
}

pub open spec fn spec_straight_attackable(cells: Seq<Option<Figure>>, king_pos: Position, color: Color, d: Direction) -> bool {
    match spec_first_opposite(cells, king_pos, color, d) {
        Some((t, next)) => t == FigureType::Rook || t == FigureType::Queen || (t == FigureType::King && next),
        None => false,
    }
}

pub open spec fn spec_forward_diagonal_attackable(cells: Seq<Option<Figure>>, king_pos: Position, color: Color, d: Direction) -> bool {
    match spec_first_opposite(cells, king_pos, color, d) {
        Some((t, next)) => t == FigureType::Bishop || t == FigureType::Queen || ((t == FigureType::Pawn
            || t == FigureType::King) && next),
        None => false,
    }
}

pub open spec fn spec_backward_diagonal_attackable(cells: Seq<Option<Figure>>, king_pos: Position, color: Color, d: Direction) -> bool {
    match spec_first_opposite(cells, king_pos, color, d) {
        Some((t, next)) => t == FigureType::Bishop || t == FigureType::Queen || (t == FigureType::King && next),
        None => false,
    }
}

/// Whether an opponent knight stands a knight jump away from `king_pos`.
pub open spec fn spec_knight_attackable(cells: Seq<Option<Figure>>, king_pos: Position, color: Color) -> bool {
    exists|k: int|
        0 <= k < knight_targets(cells, king_pos, color).len() && (cells[#[trigger] knight_targets(
            cells,
            king_pos,
            color,
        )[k].index as int] matches Some(f) && f.fig_type == FigureType::Knight)
}

/// Whether the king of `color` on `king_pos` stands in check: a rook, queen or king attacks it
/// along its row or forward column, a bishop, queen, king or pawn along a forward diagonal,
/// a knight, or, unless it stands on its ground row, a rook, queen, bishop or king from behind.
pub open spec fn spec_is_king_in_check(cells: Seq<Option<Figure>>, king_pos: Position, color: Color) -> bool {
    let (forward_left, forward, forward_right) = Direction::spec_forward_directions(color);
    ||| spec_straight_attackable(cells, king_pos, color, forward)
    ||| spec_straight_attackable(cells, king_pos, color, Direction::Left)
    ||| spec_straight_attackable(cells, king_pos, color, Direction::Right)
    ||| spec_forward_diagonal_attackable(cells, king_pos, color, forward_left)
    ||| spec_forward_diagonal_attackable(cells, king_pos, color, forward_right)
    ||| spec_knight_attackable(cells, king_pos, color)
    ||| (!king_pos.spec_is_on_ground_row(color) && (spec_straight_attackable(cells, king_pos, color, forward.spec_reverse())
        || spec_backward_diagonal_attackable(cells, king_pos, color, forward_left.spec_reverse())
        || spec_backward_diagonal_attackable(cells, king_pos, color, forward_right.spec_reverse())))
}

pub fn is_king_in_check(king_pos: Position, color: Color, board: &Board) -> (r: bool)
    requires
        king_pos.wf(),
    ensures
        r == spec_is_king_in_check(board@, king_pos, color),
{
    let (forward_left, forward, forward_right) = Direction::forward_directions(color);
    is_king_straight_attackable(king_pos, color, forward, board) || is_king_straight_attackable(
        king_pos,
        color,
        Direction::Left,
        board,
    ) || is_king_straight_attackable(king_pos, color, Direction::Right, board)
        || is_king_forward_diagonal_attackable(king_pos, color, forward_left, board)
        || is_king_forward_diagonal_attackable(king_pos, color, forward_right, board)
        || is_king_attackable_by_knight(king_pos, color, board) || ((!king_pos.is_on_ground_row(color)) && (
    is_king_straight_attackable(king_pos, color, forward.reverse(), board)
        || is_king_backward_diagonal_attackable(king_pos, color, forward_left.reverse(), board)
        || is_king_backward_diagonal_attackable(king_pos, color, forward_right.reverse(), board)))
}

pub fn is_king_straight_attackable(king_pos: Position, color: Color, dir: Direction, board: &Board) -> (r: bool)
    requires
        king_pos.wf(),
    ensures
        r == spec_straight_attackable(board@, king_pos, color, dir),
{
    if let Some((opponent_fig_type, is_attacker_next_to_self)) = get_first_opposite_color_figure_type_in_direction(
        king_pos,
        color,
        dir,
        board,
    ) {
        return match opponent_fig_type {
            FigureType::Rook | FigureType::Queen => true,
            FigureType::King if is_attacker_next_to_self => true,
            _ => false,
        };
    }
    false
}

pub fn is_king_forward_diagonal_attackable(king_pos: Position, color: Color, diagonal: Direction, board: &Board) -> (r: bool)
    requires
        king_pos.wf(),
    ensures
        r == spec_forward_diagonal_attackable(board@, king_pos, color, diagonal),
{
    if let Some((opponent_fig_type, is_attacker_next_to_self)) = get_first_opposite_color_figure_type_in_direction(
        king_pos,
        color,
        diagonal,
        board,
    ) {
        return match opponent_fig_type {
            FigureType::Bishop | FigureType::Queen => true,
            FigureType::Pawn if is_attacker_next_to_self => true,
            FigureType::King if is_attacker_next_to_self => true,
            _ => false,
        };
    }
    false
}

pub fn is_king_backward_diagonal_attackable(king_pos: Position, color: Color, diagonal: Direction, board: &Board) -> (r: bool)
    requires
        king_pos.wf(),
    ensures
        r == spec_backward_diagonal_attackable(board@, king_pos, color, diagonal),
{
    if let Some((opponent_fig_type, is_attacker_next_to_self)) = get_first_opposite_color_figure_type_in_direction(
        king_pos,
        color,
        diagonal,
        board,
    ) {
        return match opponent_fig_type {
            FigureType::Bishop | FigureType::Queen => true,
            FigureType::King if is_attacker_next_to_self => true,
            _ => false,
        };
    }
    false
}

pub fn is_king_attackable_by_knight(king_pos: Position, color: Color, board: &Board) -> (r: bool)
    requires
        king_pos.wf(),
    ensures
        r == spec_knight_attackable(board@, king_pos, color),
{
    let ghost targets = knight_targets(board@, king_pos, color);
    proof {
        crate::game::board::lemma_board_len(*board);
        lemma_knight_targets_fields(board@, king_pos, color, 0);
    }
    let mut iter = king_pos.reachable_knight_positions(color, board);
    let ghost mut seen: int = 0;
    while iter.has_next_position()
        invariant
            iter.wf(),
            0 <= seen <= targets.len(),
            iter@ == targets.subrange(seen, targets.len() as int),
            targets == knight_targets(board@, king_pos, color),
            forall|k: int| 0 <= k < targets.len() ==> (#[trigger] targets[k]).wf(),
            forall|k: int| 0 <= k < seen ==> !(board@[(#[trigger] targets[k]).index as int] matches Some(f)
                && f.fig_type == FigureType::Knight),
        decreases iter@.len(),
    {
        let possible = iter.next();
        match possible {
            Some(possible_knight_attacker_pos) => {
                assert(possible_knight_attacker_pos == targets[seen]);
                assert(targets.subrange(seen, targets.len() as int).drop_first() =~= targets.subrange(seen + 1, targets.len() as int));
                if let Some(figure) = board.get_figure(possible_knight_attacker_pos) {
                    if figure.fig_type == FigureType::Knight {
                        return true;
                    }
                }
                proof {
                    seen = seen + 1;
                }
            },
            None => {},
        }
    }
    false
}

/*
 * returns the optional figure_type and if that figure is right next to self
 */
pub fn get_first_opposite_color_figure_type_in_direction(king_pos: Position, king_color: Color, direction: Direction, board: &Board) -> (r: Option<(FigureType, bool)>)
    requires
        king_pos.wf(),
    ensures
        r == spec_first_opposite(board@, king_pos, king_color, direction),
{
    let mut old_pos = king_pos;
    let mut is_attacker_next_to_self = true;
    loop
        invariant
            king_pos.wf(),
            old_pos.wf(),
            first_occupied(board@, king_pos, direction) == first_occupied(board@, old_pos, direction),
            is_attacker_next_to_self == (old_pos == king_pos),
            old_pos == king_pos || steps_left(old_pos, direction) < steps_left(king_pos, direction),
        decreases steps_left(old_pos, direction),
    {
        proof {
            lemma_steps_left(old_pos, direction);
            lemma_steps_left(king_pos, direction);
        }
        let new_pos = match old_pos.step(direction) {
            Some(pos) => pos,
            None => {
                return None;
            },
        };
        if let Some(figure) = board.get_figure(new_pos) {
            proof {
                if !is_attacker_next_to_self {
                    let s = king_pos.spec_step(direction);
                    if s == Some(new_pos) {
                        assert(steps_left(new_pos, direction) == steps_left(king_pos, direction) - 1);
                    }
                }
            }
            return if figure.color == king_color {
                None
            } else {
                Some((figure.fig_type, is_attacker_next_to_self))
            };
        }
        old_pos = new_pos;
        is_attacker_next_to_self = false;
    }
}


/// How a figure attacks a king: along a line (direction from the king, and distance), or as
/// a pawn or knight from a field.
#[derive(Debug, Copy, Clone, PartialEq, Eq, Structural)]
pub enum Attack {
    OnLine(Direction, usize),
    ByPawn(Position),
    ByKnight(Position),
}

pub open spec fn spec_queen_or_rook_attack(king_pos: Position, direction: Direction, attacker_pos: Position) -> Attack {
    let dr = crate::base::position::abs(king_pos.row - attacker_pos.row);
    let dc = crate::base::position::abs(king_pos.column - attacker_pos.column);
    Attack::OnLine(direction, (if dr >= dc { dr } else { dc }) as usize)
}

pub open spec fn spec_bishop_attack(king_pos: Position, direction: Direction, attacker_pos: Position) -> Attack {
    Attack::OnLine(direction, crate::base::position::abs(king_pos.row - attacker_pos.row) as usize)
}

/// The attack the figure on `attacker_pos` makes on the king of `king_color` on `king_pos`, if any.
pub open spec fn spec_gives_chess(cells: Seq<Option<Figure>>, attacker_pos: Position, king_pos: Position, king_color: Color) -> Option<Attack> {
    let attacker_type = cells[attacker_pos.index as int]->0.fig_type;
    match king_pos.spec_get_direction(attacker_pos) {
        None => if attacker_type == FigureType::Knight && attacker_pos.spec_is_reachable_by_knight(king_pos) {
            Some(Attack::ByKnight(attacker_pos))
        } else {
            None
        },
        Some(d) => if attacker_type == FigureType::Rook {
            if d.spec_is_straight() && path_free(cells, king_pos, d, attacker_pos) {
                Some(spec_queen_or_rook_attack(king_pos, d, attacker_pos))
            } else {
                None
            }
        } else if attacker_type == FigureType::Bishop {
            if d.spec_is_diagonal() && path_free(cells, king_pos, d, attacker_pos) {
                Some(spec_bishop_attack(king_pos, d, attacker_pos))
            } else {
                None
            }
        } else if attacker_type == FigureType::Queen {
            if path_free(cells, king_pos, d, attacker_pos) {
                Some(spec_queen_or_rook_attack(king_pos, d, attacker_pos))
            } else {
                None
            }
        } else if attacker_type == FigureType::Pawn {
            let (forward_left, _, forward_right) = Direction::spec_forward_directions(king_color);
            if crate::base::position::abs(attacker_pos.column - king_pos.column) == 1 && (d == forward_left
                || d == forward_right) {
                Some(Attack::ByPawn(attacker_pos))
            } else {
                None
            }
        } else {
            None
        },
    }
}

/// The attack on the king that a figure standing behind `freed_up_pos`, seen from the king,
/// makes once that field is free, if any.
pub open spec fn spec_find_attack_from_behind(cells: Seq<Option<Figure>>, freed_up_pos: Position, king_pos: Position, king_color: Color) -> Option<Attack> {
    match king_pos.spec_get_direction(freed_up_pos) {
        None => None,
        Some(d) => match first_occupied(cells, freed_up_pos, d) {
            None => None,
            Some(q) => {
                let f = cells[q.index as int]->0;
                if f.color != king_color {
                    if f.fig_type == FigureType::Rook {
                        if d.spec_is_straight() {
                            Some(spec_queen_or_rook_attack(king_pos, d, q))
                        } else {
                            None
                        }
                    } else if f.fig_type == FigureType::Bishop {
                        if d.spec_is_diagonal() {
                            Some(spec_bishop_attack(king_pos, d, q))
                        } else {
                            None
                        }
                    } else if f.fig_type == FigureType::Queen {
                        Some(spec_queen_or_rook_attack(king_pos, d, q))
                    } else {
                        None
                    }
                } else {
                    None
                }
            },
        },
    }
}

/// The field the rook ends on after a castling of the given type on the given row.
pub open spec fn spec_castling_rook_end_pos(castling_type: CastlingType, row: int) -> Position {
    Position::spec_at(if castling_type == CastlingType::KingSide { 5 } else { 3 }, row)
}

/// The field of the pawn an en-passant move takes.
pub open spec fn spec_taken_pawn_pos(m: Move) -> Position {
    Position::spec_at(m.spec_to().column as int, m.spec_from().row as int)
}

/// What `is_king_in_check_after` needs of the board: the figure that moved (or the rook of a
/// castling) stands where the move put it and belongs to the other side.
pub open spec fn check_after_requires(cells: Seq<Option<Figure>>, latest_move: Move, color: Color) -> bool {
    let attacker_pos = match latest_move.spec_move_type() {
        MoveType::Castling(ct) => spec_castling_rook_end_pos(ct, latest_move.spec_to().row as int),
        _ => latest_move.spec_to(),
    };
    cells[attacker_pos.index as int] matches Some(f) && f.color != color
}

/// Whether the latest move put the king of `color` on `king_pos` in check, looking only at
/// the figure that moved and at the lines the move opened.
pub open spec fn spec_is_king_in_check_after(cells: Seq<Option<Figure>>, latest_move: Move, king_pos: Position, color: Color) -> bool {
    match latest_move.spec_move_type() {
        MoveType::Castling(ct) => spec_gives_chess(
            cells,
            spec_castling_rook_end_pos(ct, latest_move.spec_to().row as int),
            king_pos,
            color,
        ) is Some,
        MoveType::EnPassant => spec_gives_chess(cells, latest_move.spec_to(), king_pos, color) is Some
            || spec_find_attack_from_behind(cells, latest_move.spec_from(), king_pos, color) is Some
            || spec_find_attack_from_behind(cells, spec_taken_pawn_pos(latest_move), king_pos, color) is Some,
        _ => spec_gives_chess(cells, latest_move.spec_to(), king_pos, color) is Some
            || spec_find_attack_from_behind(cells, latest_move.spec_from(), king_pos, color) is Some,
    }
}

/**
 * it's assumed that the passive king isn't in check at this point (because then the game should already by over).
 */
pub fn is_king_in_check_after(latest_move: Move, king_pos: Position, color: Color, board: &Board) -> (r: bool)
    requires
        king_pos.wf(),
        check_after_requires(board@, latest_move, color),
    ensures
        r == spec_is_king_in_check_after(board@, latest_move, king_pos, color),
{
    let to = latest_move.to();
    let from = latest_move.from();
    match latest_move.move_type() {
        MoveType::Castling(castling_type) => {
            let castling_rook_end_pos = if castling_type == CastlingType::KingSide {
                Position::new_unchecked(5, to.row)
            } else {
                Position::new_unchecked(3, to.row)
            };
            if gives_chess(castling_rook_end_pos, king_pos, color, board).is_some() {
                return true;
            }
        },
        MoveType::EnPassant => {
            if gives_chess(to, king_pos, color, board).is_some() || find_attack_from_behind(
                from,
                king_pos,
                color,
                board,
            ).is_some() {
                return true;
            }
            let taken_pawn_pos: Position = Position::new_unchecked(to.column, from.row);
            if find_attack_from_behind(taken_pawn_pos, king_pos, color, board).is_some() {
                return true;
            }
        },
        _ => {
            if gives_chess(to, king_pos, color, board).is_some() || find_attack_from_behind(
                from,
                king_pos,
                color,
                board,
            ).is_some() {
                return true;
            }
        },
    };
    false
}

pub fn gives_chess(attacker_pos: Position, king_pos: Position, king_color: Color, board: &Board) -> (r: Option<Attack>)
    requires
        attacker_pos.wf(),
        king_pos.wf(),
        board@[attacker_pos.index as int] matches Some(f) && f.color != king_color,
    ensures
        r == spec_gives_chess(board@, attacker_pos, king_pos, king_color),
{
    let attacker_type = match board.get_figure(attacker_pos) {
        Some(f) => f.fig_type,
        None => FigureType::King,
    };
    match king_pos.get_direction(attacker_pos) {
        None => {
            if attacker_type == FigureType::Knight && attacker_pos.is_reachable_by_knight(king_pos) {
                Some(Attack::ByKnight(attacker_pos))
            } else {
                None
            }
        },
        Some(direction) => {
            match attacker_type {
                FigureType::Rook => {
                    if direction.is_straight() && board.are_intermediate_pos_free(king_pos, direction, attacker_pos) {
                        Some(get_queen_or_rook_attack(king_pos, direction, attacker_pos))
                    } else {
                        None
                    }
                },
                FigureType::Bishop => {
                    if direction.is_diagonal() && board.are_intermediate_pos_free(king_pos, direction, attacker_pos) {
                        Some(get_bishop_attack(king_pos, direction, attacker_pos))
                    } else {
                        None
                    }
                },
                FigureType::Queen => {
                    if board.are_intermediate_pos_free(king_pos, direction, attacker_pos) {
                        Some(get_queen_or_rook_attack(king_pos, direction, attacker_pos))
                    } else {
                        None
                    }
                },
                FigureType::Pawn => {
                    let column_diff = attacker_pos.column - king_pos.column;
                    let (forward_left, _, forward_right) = Direction::forward_directions(king_color);
                    if (column_diff == 1 || column_diff == -1) && (direction == forward_left || direction
                        == forward_right) {
                        Some(Attack::ByPawn(attacker_pos))
                    } else {
                        None
                    }
                },
                _ => None,
            }
        },
    }
}

pub fn find_attack_from_behind(freed_up_pos: Position, king_pos: Position, king_color: Color, board: &Board) -> (r: Option<Attack>)
    requires
        freed_up_pos.wf(),
        king_pos.wf(),
    ensures
        r == spec_find_attack_from_behind(board@, freed_up_pos, king_pos, king_color),
{
    match king_pos.get_direction(freed_up_pos) {
        None => None,
        Some(direction) => {
            let mut pos = freed_up_pos;
            loop
                invariant
                    freed_up_pos.wf(),
                    king_pos.wf(),
                    pos.wf(),
                    king_pos.spec_get_direction(freed_up_pos) == Some(direction),
                    first_occupied(board@, freed_up_pos, direction) == first_occupied(board@, pos, direction),
                decreases steps_left(pos, direction),
            {
                proof {
                    lemma_steps_left(pos, direction);
                }
                if let Some(new_pos) = pos.step(direction) {
                    pos = new_pos;
                } else {
                    return None;
                }
                if let Some(figure) = board.get_figure(pos) {
                    return if figure.color != king_color {
                        match figure.fig_type {
                            FigureType::Rook => {
                                if direction.is_straight() {
                                    Some(get_queen_or_rook_attack(king_pos, direction, pos))
                                } else {
                                    None
                                }
                            },
                            FigureType::Bishop => {
                                if direction.is_diagonal() {
                                    Some(get_bishop_attack(king_pos, direction, pos))
                                } else {
                                    None
                                }
                            },
                            FigureType::Queen => Some(get_queen_or_rook_attack(king_pos, direction, pos)),
                            _ => None,
                        }
                    } else {
                        None
                    };
                }
            }
        },
    }
}

fn get_queen_or_rook_attack(king_pos: Position, direction: Direction, attacker_pos: Position) -> (r: Attack)
    requires
        king_pos.wf(),
        attacker_pos.wf(),
    ensures
        r == spec_queen_or_rook_attack(king_pos, direction, attacker_pos),
{
    let dr = king_pos.row - attacker_pos.row;
    let dc = king_pos.column - attacker_pos.column;
    let adr = if dr < 0 { -dr } else { dr };
    let adc = if dc < 0 { -dc } else { dc };
    Attack::OnLine(direction, (if adr >= adc { adr } else { adc }) as usize)
}

fn get_bishop_attack(king_pos: Position, direction: Direction, attacker_pos: Position) -> (r: Attack)
    requires
        king_pos.wf(),
        attacker_pos.wf(),
    ensures
        r == spec_bishop_attack(king_pos, direction, attacker_pos),
{
    let dr = king_pos.row - attacker_pos.row;
    let adr = if dr < 0 { -dr } else { dr };
    Attack::OnLine(direction, adr as usize)
}
} // verus!
