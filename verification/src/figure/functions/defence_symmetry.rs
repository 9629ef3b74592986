use vstd::prelude::*;
use crate::base::{Color, Direction, Position};
use crate::base::direction::spec_all_directions;
use crate::figure::{Figure, FigureType};
use crate::figure::functions::check_search::Attack;
use crate::base::a_move::Move;
use crate::figure::functions::checkmate::{
    attack_situation_ready, attack_wf, bound_in_direction, bound_positions_in, defender_intercepts, intercepts_on_line,
    spec_attack_situation, spec_can_intercept, spec_checkmate_from_attack, spec_is_active_king_checkmate, spec_is_reachable,
    spec_reachable_by_pawn, AttackerNumber,
};
use crate::figure::functions::checkmate_symmetry::{
    lemma_mirror_attack_situation, lemma_mirror_checking_field, lemma_mirror_move_fields, lemma_mirror_dir_index, lemma_mirror_direction,
    lemma_mirror_get_direction, lemma_mirror_king_can_escape, lemma_mirror_path_free, mirror_attack, mirror_dir_index,
};
use crate::figure::functions::move_symmetry::lemma_toggled_content;
use crate::figure::functions::symmetry::{lemma_mirror_first_occupied, lemma_mirror_step, lemma_toggled_cell_at};
use crate::game::board::{figures_of_color, first_occupied, lemma_figures_of_color_entries, lemma_steps_left, toggled_cell, toggled_cells};
use crate::game::game_state::{GameStateModel, toggled_pos};

verus! {

/// The figure shielding the king in a direction is, seen from the other side, the one on the
/// mirrored field shielding it in the mirrored direction.
proof fn lemma_mirror_bound_in_direction(cells: Seq<Option<Figure>>, king_pos: Position, king_color: Color, d: Direction)
    requires
        cells.len() == 64,
        king_pos.wf(),
    ensures
        bound_in_direction(toggled_cells(cells), king_pos.spec_toggle_row(), king_color.spec_toggle(), d.spec_mirror())
            == toggled_pos(bound_in_direction(cells, king_pos, king_color, d)),
        bound_in_direction(cells, king_pos, king_color, d) matches Some(q) ==> q.wf(),
{
    lemma_mirror_direction(d);
    lemma_mirror_first_occupied(cells, king_pos, d);
    crate::game::board::lemma_first_occupied_fields(cells, king_pos, d);
    crate::base::color::lemma_toggle_involution(king_color);
    if let Some(q) = first_occupied(cells, king_pos, d) {
        lemma_toggled_cell_at(cells, q);
        crate::base::color::lemma_toggle_involution(cells[q.index as int]->0.color);
        lemma_mirror_first_occupied(cells, q, d);
        crate::game::board::lemma_first_occupied_fields(cells, q, d);
        if let Some(r) = first_occupied(cells, q, d) {
            lemma_toggled_cell_at(cells, r);
            crate::base::color::lemma_toggle_involution(cells[r.index as int]->0.color);
        }
    }
}

/// The shielding figures are those found in one of the directions.
proof fn lemma_bound_positions_members(cells: Seq<Option<Figure>>, king_pos: Position, king_color: Color, dirs: Seq<Direction>, x: Position)
    ensures
        bound_positions_in(cells, king_pos, king_color, dirs).contains(x) <==> exists|j: int|
            0 <= j < dirs.len() && #[trigger] bound_in_direction(cells, king_pos, king_color, dirs[j]) == Some(x),
    decreases dirs.len(),
{
    if dirs.len() > 0 {
        let dl = dirs.drop_last();
        lemma_bound_positions_members(cells, king_pos, king_color, dl, x);
        let rest = bound_positions_in(cells, king_pos, king_color, dl);
        if exists|j: int| 0 <= j < dl.len() && #[trigger] bound_in_direction(cells, king_pos, king_color, dl[j]) == Some(x) {
            let j = choose|j: int| 0 <= j < dl.len() && #[trigger] bound_in_direction(cells, king_pos, king_color, dl[j]) == Some(x);
            assert(dl[j] == dirs[j]);
            assert(bound_in_direction(cells, king_pos, king_color, dirs[j]) == Some(x));
        }
        if exists|j: int| 0 <= j < dirs.len() && #[trigger] bound_in_direction(cells, king_pos, king_color, dirs[j]) == Some(x) {
            let j = choose|j: int| 0 <= j < dirs.len() && #[trigger] bound_in_direction(cells, king_pos, king_color, dirs[j]) == Some(x);
            if j < dl.len() {
                assert(dl[j] == dirs[j]);
                assert(bound_in_direction(cells, king_pos, king_color, dl[j]) == Some(x));
            } else {
                assert(dirs[j] == dirs.last());
            }
        }
        match bound_in_direction(cells, king_pos, king_color, dirs.last()) {
            Some(p) => {
                assert(rest.push(p).contains(x) <==> (rest.contains(x) || p == x)) by {
                    if rest.push(p).contains(x) {
                        let i = choose|i: int| 0 <= i < rest.push(p).len() && rest.push(p)[i] == x;
                        if i < rest.len() {
                            assert(rest[i] == x);
                        }
                    }
                    if rest.contains(x) {
                        let i = choose|i: int| 0 <= i < rest.len() && rest[i] == x;
                        assert(rest.push(p)[i] == x);
                    }
                    if p == x {
                        assert(rest.push(p)[rest.len() as int] == x);
                    }
                }
            },
            None => {},
        }
    }
}

/// Seen from the other side, a field shields the king exactly when its own field does.
proof fn lemma_mirror_bound_contains(cells: Seq<Option<Figure>>, king_pos: Position, king_color: Color, x: Position)
    requires
        cells.len() == 64,
        king_pos.wf(),
        x.wf(),
    ensures
        bound_positions_in(toggled_cells(cells), king_pos.spec_toggle_row(), king_color.spec_toggle(), spec_all_directions()).contains(
            x.spec_toggle_row(),
        ) == bound_positions_in(cells, king_pos, king_color, spec_all_directions()).contains(x),
{
    let t = toggled_cells(cells);
    let kp = king_pos.spec_toggle_row();
    let kc = king_color.spec_toggle();
    let dirs = spec_all_directions();
    let x2 = x.spec_toggle_row();
    lemma_mirror_dir_index();
    lemma_bound_positions_members(cells, king_pos, king_color, dirs, x);
    lemma_bound_positions_members(t, kp, kc, dirs, x2);
    crate::base::position::lemma_toggle_row_involution(x);
    if exists|j: int| 0 <= j < dirs.len() && #[trigger] bound_in_direction(cells, king_pos, king_color, dirs[j]) == Some(x) {
        let j = choose|j: int| 0 <= j < dirs.len() && #[trigger] bound_in_direction(cells, king_pos, king_color, dirs[j]) == Some(x);
        lemma_mirror_bound_in_direction(cells, king_pos, king_color, dirs[j]);
        assert(bound_in_direction(t, kp, kc, dirs[mirror_dir_index(j)]) == Some(x2));
    }
    if exists|j: int| 0 <= j < dirs.len() && #[trigger] bound_in_direction(t, kp, kc, dirs[j]) == Some(x2) {
        let j = choose|j: int| 0 <= j < dirs.len() && #[trigger] bound_in_direction(t, kp, kc, dirs[j]) == Some(x2);
        let i = mirror_dir_index(j);
        lemma_mirror_bound_in_direction(cells, king_pos, king_color, dirs[i]);
        assert(dirs[i].spec_mirror() == dirs[j]);
        if let Some(y) = bound_in_direction(cells, king_pos, king_color, dirs[i]) {
            crate::base::position::lemma_toggle_row_involution(y);
            assert(y == x);
        }
        assert(bound_in_direction(cells, king_pos, king_color, dirs[i]) == Some(x));
    }
}

/// Every figure of the color shows up in the list of the figures of that color.
pub proof fn lemma_figures_of_color_complete(s: Seq<Option<Figure>>, color: Color, i: int)
    requires
        s.len() <= 64,
        0 <= i < s.len(),
        s[i] matches Some(f) && f.color == color,
    ensures
        exists|k: int| 0 <= k < figures_of_color(s, color).len() && #[trigger] figures_of_color(s, color)[k] == (
            s[i]->0,
            Position::spec_from_index(i),
        ),
    decreases s.len(),
{
    let rest = figures_of_color(s.drop_last(), color);
    if i == s.len() - 1 {
        assert(figures_of_color(s, color)[rest.len() as int] == (s[i]->0, Position::spec_from_index(i)));
    } else {
        lemma_figures_of_color_complete(s.drop_last(), color, i);
        let k = choose|k: int| 0 <= k < rest.len() && #[trigger] rest[k] == (s.drop_last()[i]->0, Position::spec_from_index(i));
        assert(figures_of_color(s, color)[k] == rest[k]);
    }
}

/// Seen from the other side, a pawn of the side to move reaches the mirrored field exactly when
/// it reaches the field itself.
proof fn lemma_mirror_reachable_by_pawn(s: GameStateModel, pawn_pos: Position, to_pos: Position)
    requires
        s.cells.len() == 64,
        pawn_pos.wf(),
        to_pos.wf(),
        s.en_passant matches Some(e) ==> e.wf(),
    ensures
        spec_reachable_by_pawn(s.toggled(), pawn_pos.spec_toggle_row(), to_pos.spec_toggle_row()) == spec_reachable_by_pawn(
            s,
            pawn_pos,
            to_pos,
        ),
{
    lemma_toggled_cell_at(s.cells, to_pos);
    lemma_toggled_content(s.cells[to_pos.index as int], s.turn_by);
    crate::base::position::lemma_toggle_row_involution(to_pos);
    if let Some(e) = s.en_passant {
        crate::base::position::lemma_toggle_row_involution(e);
    }
    let row_step: int = if s.turn_by == Color::White { 1 } else { -1 };
    let mid_row = pawn_pos.row + row_step;
    if 0 <= mid_row < 8 {
        let mid = Position::spec_at(pawn_pos.column as int, mid_row);
        lemma_toggled_cell_at(s.cells, mid);
        assert(mid.spec_toggle_row() == Position::spec_at(pawn_pos.column as int, 7 - pawn_pos.row - row_step));
    }
}

/// Seen from the other side, a figure reaches the mirrored field exactly when it reaches the
/// field itself.
proof fn lemma_mirror_is_reachable(s: GameStateModel, fig_type: FigureType, fig_pos: Position, to_pos: Position)
    requires
        s.cells.len() == 64,
        fig_pos.wf(),
        to_pos.wf(),
        s.en_passant matches Some(e) ==> e.wf(),
    ensures
        spec_is_reachable(s.toggled(), fig_type, fig_pos.spec_toggle_row(), to_pos.spec_toggle_row()) == spec_is_reachable(
            s,
            fig_type,
            fig_pos,
            to_pos,
        ),
{
    lemma_mirror_get_direction(fig_pos, to_pos);
    if let Some(d) = fig_pos.spec_get_direction(to_pos) {
        lemma_mirror_direction(d);
        lemma_mirror_path_free(s.cells, fig_pos, d, to_pos);
    }
    if fig_type == FigureType::Pawn {
        lemma_mirror_reachable_by_pawn(s, fig_pos, to_pos);
    }
}

/// Seen from the other side, a figure reaches one of the mirrored fields of a line exactly when
/// it reaches one of the fields of the line.
proof fn lemma_mirror_intercepts_on_line(
    s: GameStateModel,
    fig_type: FigureType,
    fig_pos: Position,
    pos: Position,
    d: Direction,
    count: nat,
)
    requires
        s.cells.len() == 64,
        fig_pos.wf(),
        pos.wf(),
        s.en_passant matches Some(e) ==> e.wf(),
    ensures
        intercepts_on_line(s.toggled(), fig_type, fig_pos.spec_toggle_row(), pos.spec_toggle_row(), d.spec_mirror(), count)
            == intercepts_on_line(s, fig_type, fig_pos, pos, d, count),
    decreases count,
{
    if count > 0 {
        lemma_mirror_step(pos, d);
        lemma_steps_left(pos, d);
        if let Some(q) = pos.spec_step(d) {
            lemma_mirror_is_reachable(s, fig_type, fig_pos, q);
            lemma_mirror_intercepts_on_line(s, fig_type, fig_pos, q, d, (count - 1) as nat);
        }
    }
}

/// Seen from the other side, a defender intercepts the mirrored attack exactly when it
/// intercepts the attack itself.
pub proof fn lemma_mirror_can_intercept(s: GameStateModel, attack: Attack, defender_type: FigureType, defender_pos: Position, king_pos: Position)
    requires
        s.cells.len() == 64,
        defender_pos.wf(),
        king_pos.wf(),
        attack_wf(attack),
        s.en_passant matches Some(e) ==> e.wf(),
    ensures
        spec_can_intercept(s.toggled(), mirror_attack(attack), defender_type, defender_pos.spec_toggle_row(), king_pos.spec_toggle_row())
            == spec_can_intercept(s, attack, defender_type, defender_pos, king_pos),
{
    match attack {
        Attack::ByPawn(p) => lemma_mirror_is_reachable(s, defender_type, defender_pos, p),
        Attack::ByKnight(p) => lemma_mirror_is_reachable(s, defender_type, defender_pos, p),
        Attack::OnLine(d, n) => lemma_mirror_intercepts_on_line(s, defender_type, defender_pos, king_pos, d, n as nat),
    }
}

/// The single attack after a move names fields on the board.
proof fn lemma_attack_situation_wf(cells: Seq<Option<Figure>>, turn_by: Color, king_pos: Position, king_color: Color, after_move: Move)
    ensures
        spec_attack_situation(cells, turn_by, king_pos, king_color, after_move) matches AttackerNumber::One(a) ==> attack_wf(a),
{
    lemma_mirror_move_fields(after_move);
    lemma_mirror_checking_field(turn_by, after_move);
}

/// Seen from the other side, a king under the mirrored single attack is mate exactly when it is
/// mate under the attack itself.
proof fn lemma_mirror_checkmate_from_attack(s: GameStateModel, attack: Attack, king_pos: Position, king_color: Color)
    requires
        s.cells.len() == 64,
        king_pos.wf(),
        attack_wf(attack),
        s.en_passant matches Some(e) ==> e.wf(),
    ensures
        spec_checkmate_from_attack(s.toggled(), mirror_attack(attack), king_pos.spec_toggle_row(), king_color.spec_toggle())
            == spec_checkmate_from_attack(s, attack, king_pos, king_color),
{
    let t = s.toggled();
    let cells = s.cells;
    let kp = king_pos.spec_toggle_row();
    let kc = king_color.spec_toggle();
    let a2 = mirror_attack(attack);
    let defs = figures_of_color(cells, king_color);
    let defs2 = figures_of_color(t.cells, kc);
    let bound = bound_positions_in(cells, king_pos, king_color, spec_all_directions());
    let bound2 = bound_positions_in(t.cells, kp, kc, spec_all_directions());
    lemma_mirror_king_can_escape(cells, king_pos, king_color);
    lemma_figures_of_color_entries(cells, king_color);
    lemma_figures_of_color_entries(t.cells, kc);
    crate::base::color::lemma_toggle_involution(king_color);
    crate::base::position::lemma_toggle_row_involution(king_pos);
    if exists|k: int| 0 <= k < defs.len() && #[trigger] defender_intercepts(s, attack, king_pos, bound, defs[k]) {
        let k = choose|k: int| 0 <= k < defs.len() && #[trigger] defender_intercepts(s, attack, king_pos, bound, defs[k]);
        let (f, p) = defs[k];
        let p2 = p.spec_toggle_row();
        let f2 = Figure { fig_type: f.fig_type, color: kc };
        crate::base::position::lemma_toggle_row_involution(p);
        lemma_toggled_cell_at(cells, p);
        crate::base::position::lemma_from_index_wf(p2.index as int);
        crate::base::position::lemma_position_eq_by_index(p2, Position::spec_from_index(p2.index as int));
        lemma_figures_of_color_complete(t.cells, kc, p2.index as int);
        let j = choose|j: int| 0 <= j < defs2.len() && #[trigger] defs2[j] == (t.cells[p2.index as int]->0, Position::spec_from_index(p2.index as int));
        assert(defs2[j] == (f2, p2));
        lemma_mirror_bound_contains(cells, king_pos, king_color, p);
        lemma_mirror_can_intercept(s, attack, f.fig_type, p, king_pos);
        assert(defender_intercepts(t, a2, kp, bound2, defs2[j]));
    }
    if exists|k: int| 0 <= k < defs2.len() && #[trigger] defender_intercepts(t, a2, kp, bound2, defs2[k]) {
        let k = choose|k: int| 0 <= k < defs2.len() && #[trigger] defender_intercepts(t, a2, kp, bound2, defs2[k]);
        let (f2, p2) = defs2[k];
        let p = p2.spec_toggle_row();
        crate::base::position::lemma_toggle_row_involution(p2);
        lemma_toggled_cell_at(cells, p);
        let f = cells[p.index as int]->0;
        crate::base::color::lemma_toggle_involution(f.color);
        crate::base::position::lemma_from_index_wf(p.index as int);
        crate::base::position::lemma_position_eq_by_index(p, Position::spec_from_index(p.index as int));
        lemma_figures_of_color_complete(cells, king_color, p.index as int);
        let j = choose|j: int| 0 <= j < defs.len() && #[trigger] defs[j] == (cells[p.index as int]->0, Position::spec_from_index(p.index as int));
        assert(defs[j] == (f, p));
        lemma_mirror_bound_contains(cells, king_pos, king_color, p);
        lemma_mirror_can_intercept(s, attack, f.fig_type, p, king_pos);
        assert(defender_intercepts(s, attack, king_pos, bound, defs[j]));
    }
}

/// Mate seen from the other side: with the board mirrored, the colors swapped and the last move
/// mirrored, the king on the mirrored field is mate exactly when the king is mate on the board
/// itself.
pub proof fn lemma_checkmate_symmetric(s: GameStateModel, king_pos: Position, king_color: Color, after_move: Move)
    requires
        s.cells.len() == 64,
        king_pos.wf(),
        s.en_passant matches Some(e) ==> e.wf(),
        attack_situation_ready(s.cells, s.turn_by, after_move, king_color),
    ensures
        spec_is_active_king_checkmate(s.toggled(), king_pos.spec_toggle_row(), king_color.spec_toggle(), after_move.spec_toggle_rows())
            == spec_is_active_king_checkmate(s, king_pos, king_color, after_move),
{
    lemma_mirror_attack_situation(s.cells, s.turn_by, king_pos, king_color, after_move);
    lemma_attack_situation_wf(s.cells, s.turn_by, king_pos, king_color, after_move);
    lemma_mirror_king_can_escape(s.cells, king_pos, king_color);
    if let AttackerNumber::One(a) = spec_attack_situation(s.cells, s.turn_by, king_pos, king_color, after_move) {
        lemma_mirror_checkmate_from_attack(s, a, king_pos, king_color);
    }
}

} // verus!
