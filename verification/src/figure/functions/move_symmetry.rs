use vstd::prelude::*;
use crate::base::{Color, Direction, Position};
use crate::base::direction::{spec_all_directions, spec_diagonal_directions, spec_straight_directions};
use crate::figure::{Figure, FigureType};
use crate::figure::functions::count_reachable::spec_count_rays;
use crate::figure::functions::reachable::{
    castling_moves, diagonal_pawn_moves, directed_moves, forward_pawn_moves, king_moves, king_step_moves, moves_to,
    on_pawn_start_row, pawn_moves, pawn_moves_to, spec_reachable_moves_of,
};
use crate::figure::functions::symmetry::{lemma_castling_symmetric, lemma_mirror_knight_jump, lemma_mirror_step, lemma_toggled_cell_at, mirror_jump_index};
use crate::game::FieldContent;
use crate::game::board::{
    knight_jump, knight_targets_from, lemma_steps_left, ray_targets, spec_content_type, steps_left, toggled_cell,
    toggled_cells,
};
use crate::game::game_state::{GameStateModel, toggled_pos};

verus! {

/// Seen from the other side, a line of a rook, bishop or queen reaches as many fields.
pub proof fn lemma_mirror_ray_len(cells: Seq<Option<Figure>>, p: Position, d: Direction, color: Color)
    requires
        p.wf(),
        cells.len() == 64,
    ensures
        ray_targets(toggled_cells(cells), p.spec_toggle_row(), d.spec_mirror(), color.spec_toggle()).len()
            == ray_targets(cells, p, d, color).len(),
    decreases steps_left(p, d),
{
    lemma_steps_left(p, d);
    lemma_mirror_step(p, d);
    crate::base::position::lemma_toggle_row_involution(p);
    lemma_steps_left(p.spec_toggle_row(), d.spec_mirror());
    crate::base::color::lemma_toggle_involution(color);
    if let Some(q) = p.spec_step(d) {
        lemma_toggled_cell_at(cells, q);
        if let Some(f) = cells[q.index as int] {
            crate::base::color::lemma_toggle_involution(f.color);
        } else {
            lemma_mirror_ray_len(cells, q, d, color);
        }
    }
}

/// Counting the lines from the k-th on splits off the last one.
proof fn lemma_count_rays_split(cells: Seq<Option<Figure>>, pos: Position, color: Color, dirs: Seq<Direction>, k: int)
    requires
        0 <= k < dirs.len(),
    ensures
        spec_count_rays(cells, pos, color, dirs, k) == spec_count_rays(cells, pos, color, dirs.drop_last(), k)
            + ray_targets(cells, pos, dirs.last(), color).len(),
    decreases dirs.len() - k,
{
    if k + 1 < dirs.len() {
        lemma_count_rays_split(cells, pos, color, dirs, k + 1);
        assert(dirs.drop_last()[k] == dirs[k]);
    } else {
        assert(spec_count_rays(cells, pos, color, dirs, k + 1) == 0);
        assert(spec_count_rays(cells, pos, color, dirs.drop_last(), k) == 0);
    }
}

/// The fields reached along one line.
pub open spec fn ray_len(cells: Seq<Option<Figure>>, pos: Position, color: Color, d: Direction) -> nat {
    ray_targets(cells, pos, d, color).len()
}

/// The straight and the diagonal lines each count four lines, all directions eight.
proof fn lemma_count_rays_unfolded(cells: Seq<Option<Figure>>, pos: Position, color: Color)
    ensures
        spec_count_rays(cells, pos, color, spec_straight_directions(), 0) == ray_len(cells, pos, color, Direction::Up)
            + ray_len(cells, pos, color, Direction::Right) + ray_len(cells, pos, color, Direction::Down) + ray_len(
            cells,
            pos,
            color,
            Direction::Left,
        ),
        spec_count_rays(cells, pos, color, spec_diagonal_directions(), 0) == ray_len(cells, pos, color, Direction::UpRight)
            + ray_len(cells, pos, color, Direction::DownRight) + ray_len(cells, pos, color, Direction::DownLeft) + ray_len(
            cells,
            pos,
            color,
            Direction::UpLeft,
        ),
        spec_count_rays(cells, pos, color, spec_all_directions(), 0) == spec_count_rays(
            cells,
            pos,
            color,
            spec_straight_directions(),
            0,
        ) + spec_count_rays(cells, pos, color, spec_diagonal_directions(), 0),
{
    reveal_with_fuel(spec_count_rays, 9);
}

/// A rook, bishop or queen has as many moves as its lines reach fields.
pub proof fn lemma_directed_moves_len(cells: Seq<Option<Figure>>, color: Color, pos: Position, dirs: Seq<Direction>)
    ensures
        directed_moves(cells, color, pos, dirs).len() == spec_count_rays(cells, pos, color, dirs, 0),
    decreases dirs.len(),
{
    if dirs.len() > 0 {
        lemma_directed_moves_len(cells, color, pos, dirs.drop_last());
        lemma_count_rays_split(cells, pos, color, dirs, 0);
        assert(moves_to(pos, ray_targets(cells, pos, dirs.last(), color)).len() == ray_targets(cells, pos, dirs.last(), color).len());
    }
}

/// Seen from the other side, a rook, bishop or queen has as many moves.
pub proof fn lemma_mirror_directed_moves_len(cells: Seq<Option<Figure>>, color: Color, pos: Position)
    requires
        pos.wf(),
        cells.len() == 64,
    ensures
        directed_moves(toggled_cells(cells), color.spec_toggle(), pos.spec_toggle_row(), spec_straight_directions()).len()
            == directed_moves(cells, color, pos, spec_straight_directions()).len(),
        directed_moves(toggled_cells(cells), color.spec_toggle(), pos.spec_toggle_row(), spec_diagonal_directions()).len()
            == directed_moves(cells, color, pos, spec_diagonal_directions()).len(),
        directed_moves(toggled_cells(cells), color.spec_toggle(), pos.spec_toggle_row(), spec_all_directions()).len()
            == directed_moves(cells, color, pos, spec_all_directions()).len(),
{
    let t = toggled_cells(cells);
    let mp = pos.spec_toggle_row();
    let mc = color.spec_toggle();
    lemma_directed_moves_len(cells, color, pos, spec_straight_directions());
    lemma_directed_moves_len(cells, color, pos, spec_diagonal_directions());
    lemma_directed_moves_len(cells, color, pos, spec_all_directions());
    lemma_directed_moves_len(t, mc, mp, spec_straight_directions());
    lemma_directed_moves_len(t, mc, mp, spec_diagonal_directions());
    lemma_directed_moves_len(t, mc, mp, spec_all_directions());
    lemma_mirror_ray_len(cells, pos, Direction::Up, color);
    lemma_mirror_ray_len(cells, pos, Direction::UpRight, color);
    lemma_mirror_ray_len(cells, pos, Direction::Right, color);
    lemma_mirror_ray_len(cells, pos, Direction::DownRight, color);
    lemma_mirror_ray_len(cells, pos, Direction::Down, color);
    lemma_mirror_ray_len(cells, pos, Direction::DownLeft, color);
    lemma_mirror_ray_len(cells, pos, Direction::Left, color);
    lemma_mirror_ray_len(cells, pos, Direction::UpLeft, color);
    lemma_count_rays_unfolded(cells, pos, color);
    lemma_count_rays_unfolded(t, mp, mc);
}

/// Whether the k-th knight jump from `p` lands on the board on a field without a figure of
/// `color`: one move, or none.
pub open spec fn knight_ind(cells: Seq<Option<Figure>>, p: Position, color: Color, k: int) -> nat {
    match knight_jump(p, k) {
        Some(q) => if spec_content_type(cells[q.index as int], color) == FieldContent::OwnFigure {
            0
        } else {
            1
        },
        None => 0,
    }
}

/// A knight has one move for each jump that lands on a field without a figure of its own.
proof fn lemma_knight_len_unfolded(cells: Seq<Option<Figure>>, p: Position, color: Color)
    ensures
        knight_targets_from(cells, p, color, 0).len() == knight_ind(cells, p, color, 0) + knight_ind(cells, p, color, 1)
            + knight_ind(cells, p, color, 2) + knight_ind(cells, p, color, 3) + knight_ind(cells, p, color, 4)
            + knight_ind(cells, p, color, 5) + knight_ind(cells, p, color, 6) + knight_ind(cells, p, color, 7),
{
    reveal_with_fuel(knight_targets_from, 9);
}

/// A field holds a figure of `color` exactly when the toggled field holds one of the toggled
/// color.
pub proof fn lemma_toggled_content(x: Option<Figure>, color: Color)
    ensures
        (spec_content_type(toggled_cell(x), color.spec_toggle()) == FieldContent::OwnFigure) == (spec_content_type(x, color)
            == FieldContent::OwnFigure),
        spec_content_type(toggled_cell(x), color.spec_toggle()) == spec_content_type(x, color),
{
    crate::base::color::lemma_toggle_involution(color);
    if let Some(f) = x {
        crate::base::color::lemma_toggle_involution(f.color);
    }
}

/// Seen from the other side, a knight has as many moves.
pub proof fn lemma_mirror_knight_moves_len(cells: Seq<Option<Figure>>, color: Color, pos: Position)
    requires
        pos.wf(),
        cells.len() == 64,
    ensures
        moves_to(pos.spec_toggle_row(), knight_targets_from(toggled_cells(cells), pos.spec_toggle_row(), color.spec_toggle(), 0)).len()
            == moves_to(pos, knight_targets_from(cells, pos, color, 0)).len(),
{
    let t = toggled_cells(cells);
    let mp = pos.spec_toggle_row();
    let mc = color.spec_toggle();
    assert forall|k: int| 0 <= k < 8 implies #[trigger] knight_ind(t, mp, mc, mirror_jump_index(k)) == knight_ind(cells, pos, color, k) by {
        lemma_mirror_knight_jump(pos, k);
        if let Some(q) = knight_jump(pos, k) {
            lemma_toggled_cell_at(cells, q);
            lemma_toggled_content(cells[q.index as int], color);
        }
    }
    assert(mirror_jump_index(0) == 1 && mirror_jump_index(1) == 0 && mirror_jump_index(2) == 3 && mirror_jump_index(3) == 2);
    assert(mirror_jump_index(4) == 5 && mirror_jump_index(5) == 4 && mirror_jump_index(6) == 7 && mirror_jump_index(7) == 6);
    lemma_knight_len_unfolded(cells, pos, color);
    lemma_knight_len_unfolded(t, mp, mc);
}

/// A pawn move onto a field and the mirrored one onto the mirrored field come in equal numbers.
proof fn lemma_mirror_pawn_moves_to_len(from: Position, to: Position)
    requires
        to.wf(),
    ensures
        pawn_moves_to(from.spec_toggle_row(), to.spec_toggle_row()).len() == pawn_moves_to(from, to).len(),
{
}

/// Seen from the other side, a pawn takes diagonally in as many ways.
proof fn lemma_mirror_diagonal_len(cells: Seq<Option<Figure>>, color: Color, from: Position, d: Direction, en_passant: Option<Position>)
    requires
        from.wf(),
        cells.len() == 64,
        en_passant matches Some(e) ==> e.wf(),
    ensures
        diagonal_pawn_moves(
            toggled_cells(cells),
            color.spec_toggle(),
            from.spec_toggle_row(),
            from.spec_toggle_row().spec_step(d.spec_mirror()),
            toggled_pos(en_passant),
        ).len() == diagonal_pawn_moves(cells, color, from, from.spec_step(d), en_passant).len(),
{
    lemma_mirror_step(from, d);
    lemma_steps_left(from, d);
    if let Some(q) = from.spec_step(d) {
        lemma_toggled_cell_at(cells, q);
        lemma_toggled_content(cells[q.index as int], color);
        lemma_mirror_pawn_moves_to_len(from, q);
        if let Some(e) = en_passant {
            crate::base::position::lemma_toggle_row_involution(e);
            crate::base::position::lemma_toggle_row_involution(q);
        }
    }
}

/// Seen from the other side, a pawn moves forward in as many ways.
proof fn lemma_mirror_forward_len(cells: Seq<Option<Figure>>, color: Color, from: Position)
    requires
        from.wf(),
        cells.len() == 64,
    ensures
        forward_pawn_moves(toggled_cells(cells), color.spec_toggle(), from.spec_toggle_row()).len() == forward_pawn_moves(
            cells,
            color,
            from,
        ).len(),
{
    let f = Direction::spec_forward_directions(color).1;
    assert(Direction::spec_forward_directions(color.spec_toggle()).1 == f.spec_mirror());
    lemma_mirror_step(from, f);
    lemma_steps_left(from, f);
    if let Some(p) = from.spec_step(f) {
        lemma_toggled_cell_at(cells, p);
        lemma_mirror_pawn_moves_to_len(from, p);
        lemma_mirror_step(p, f);
        lemma_steps_left(p, f);
        assert(on_pawn_start_row(from.spec_toggle_row(), color.spec_toggle()) == on_pawn_start_row(from, color));
        if on_pawn_start_row(from, color) {
            let dp = p.spec_step(f)->0;
            lemma_toggled_cell_at(cells, dp);
            lemma_mirror_pawn_moves_to_len(from, dp);
        }
    }
}

/// Seen from the other side, a pawn has as many moves.
pub proof fn lemma_mirror_pawn_moves_len(cells: Seq<Option<Figure>>, color: Color, from: Position, en_passant: Option<Position>)
    requires
        from.wf(),
        cells.len() == 64,
        en_passant matches Some(e) ==> e.wf(),
    ensures
        pawn_moves(toggled_cells(cells), color.spec_toggle(), from.spec_toggle_row(), toggled_pos(en_passant)).len()
            == pawn_moves(cells, color, from, en_passant).len(),
{
    let (fl, f, fr) = Direction::spec_forward_directions(color);
    assert(Direction::spec_forward_directions(color.spec_toggle()) == (fl.spec_mirror(), f.spec_mirror(), fr.spec_mirror()));
    lemma_mirror_diagonal_len(cells, color, from, fl, en_passant);
    lemma_mirror_diagonal_len(cells, color, from, fr, en_passant);
    lemma_mirror_forward_len(cells, color, from);
}

/// Whether a king on `from` can step in direction `d`: one move, or none.
pub open spec fn king_step_ind(cells: Seq<Option<Figure>>, color: Color, from: Position, d: Direction) -> nat {
    match from.spec_step(d) {
        Some(p) => if spec_content_type(cells[p.index as int], color) != FieldContent::OwnFigure {
            1
        } else {
            0
        },
        None => 0,
    }
}

/// The single steps a king can make in the directions from the k-th on.
pub open spec fn king_step_count(cells: Seq<Option<Figure>>, color: Color, from: Position, dirs: Seq<Direction>, k: int) -> nat
    decreases dirs.len() - k,
{
    if k >= dirs.len() || k < 0 {
        0
    } else {
        king_step_ind(cells, color, from, dirs[k]) + king_step_count(cells, color, from, dirs, k + 1)
    }
}

/// Counting the steps from the k-th direction on splits off the last direction.
proof fn lemma_king_step_count_split(cells: Seq<Option<Figure>>, color: Color, from: Position, dirs: Seq<Direction>, k: int)
    requires
        0 <= k < dirs.len(),
    ensures
        king_step_count(cells, color, from, dirs, k) == king_step_count(cells, color, from, dirs.drop_last(), k)
            + king_step_ind(cells, color, from, dirs.last()),
    decreases dirs.len() - k,
{
    if k + 1 < dirs.len() {
        lemma_king_step_count_split(cells, color, from, dirs, k + 1);
        assert(dirs.drop_last()[k] == dirs[k]);
    } else {
        assert(king_step_count(cells, color, from, dirs, k + 1) == 0);
        assert(king_step_count(cells, color, from, dirs.drop_last(), k) == 0);
    }
}

/// A king has one single step for each direction it can step in.
proof fn lemma_king_step_moves_len(cells: Seq<Option<Figure>>, color: Color, from: Position, dirs: Seq<Direction>)
    ensures
        king_step_moves(cells, color, from, dirs).len() == king_step_count(cells, color, from, dirs, 0),
    decreases dirs.len(),
{
    if dirs.len() > 0 {
        lemma_king_step_moves_len(cells, color, from, dirs.drop_last());
        lemma_king_step_count_split(cells, color, from, dirs, 0);
    }
}

/// The eight single steps of a king, one direction after the other.
proof fn lemma_king_step_count_unfolded(cells: Seq<Option<Figure>>, color: Color, from: Position)
    ensures
        king_step_count(cells, color, from, spec_all_directions(), 0) == king_step_ind(cells, color, from, Direction::Up)
            + king_step_ind(cells, color, from, Direction::UpRight) + king_step_ind(cells, color, from, Direction::Right)
            + king_step_ind(cells, color, from, Direction::DownRight) + king_step_ind(cells, color, from, Direction::Down)
            + king_step_ind(cells, color, from, Direction::DownLeft) + king_step_ind(cells, color, from, Direction::Left)
            + king_step_ind(cells, color, from, Direction::UpLeft),
{
    reveal_with_fuel(king_step_count, 9);
}

/// Seen from the other side, a king can step in the mirrored direction exactly when it can step
/// in the direction itself.
proof fn lemma_mirror_king_step_ind(cells: Seq<Option<Figure>>, color: Color, from: Position, d: Direction)
    requires
        from.wf(),
        cells.len() == 64,
    ensures
        king_step_ind(toggled_cells(cells), color.spec_toggle(), from.spec_toggle_row(), d.spec_mirror())
            == king_step_ind(cells, color, from, d),
{
    lemma_mirror_step(from, d);
    lemma_steps_left(from, d);
    if let Some(p) = from.spec_step(d) {
        lemma_toggled_cell_at(cells, p);
        lemma_toggled_content(cells[p.index as int], color);
    }
}

/// Seen from the other side, a king with the same castling rights has as many moves.
pub proof fn lemma_mirror_king_moves_len(cells: Seq<Option<Figure>>, color: Color, from: Position, queen_side: bool, king_side: bool)
    requires
        from.wf(),
        cells.len() == 64,
    ensures
        king_moves(toggled_cells(cells), color.spec_toggle(), from.spec_toggle_row(), queen_side, king_side).len()
            == king_moves(cells, color, from, queen_side, king_side).len(),
{
    let t = toggled_cells(cells);
    let mp = from.spec_toggle_row();
    let mc = color.spec_toggle();
    lemma_king_step_moves_len(cells, color, from, spec_all_directions());
    lemma_king_step_moves_len(t, mc, mp, spec_all_directions());
    lemma_king_step_count_unfolded(cells, color, from);
    lemma_king_step_count_unfolded(t, mc, mp);
    lemma_mirror_king_step_ind(cells, color, from, Direction::Up);
    lemma_mirror_king_step_ind(cells, color, from, Direction::UpRight);
    lemma_mirror_king_step_ind(cells, color, from, Direction::Right);
    lemma_mirror_king_step_ind(cells, color, from, Direction::DownRight);
    lemma_mirror_king_step_ind(cells, color, from, Direction::Down);
    lemma_mirror_king_step_ind(cells, color, from, Direction::DownLeft);
    lemma_mirror_king_step_ind(cells, color, from, Direction::Left);
    lemma_mirror_king_step_ind(cells, color, from, Direction::UpLeft);
    lemma_castling_symmetric(cells, color, from);
}

/// Seen from the other side, a figure of the side to move has as many moves on the mirrored
/// field.
pub proof fn lemma_mirror_reachable_moves_len(s: GameStateModel, fig_type: FigureType, pos: Position)
    requires
        pos.wf(),
        s.cells.len() == 64,
        s.en_passant matches Some(e) ==> e.wf(),
    ensures
        spec_reachable_moves_of(s.toggled(), fig_type, pos.spec_toggle_row()).len() == spec_reachable_moves_of(s, fig_type, pos).len(),
{
    let cells = s.cells;
    let color = s.turn_by;
    match fig_type {
        FigureType::Pawn => lemma_mirror_pawn_moves_len(cells, color, pos, s.en_passant),
        FigureType::Knight => lemma_mirror_knight_moves_len(cells, color, pos),
        FigureType::King => match color {
            Color::White => lemma_mirror_king_moves_len(cells, color, pos, s.white_queen_side, s.white_king_side),
            Color::Black => lemma_mirror_king_moves_len(cells, color, pos, s.black_queen_side, s.black_king_side),
        },
        _ => lemma_mirror_directed_moves_len(cells, color, pos),
    }
}

} // verus!
