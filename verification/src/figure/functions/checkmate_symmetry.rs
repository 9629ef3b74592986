use vstd::prelude::*;
use crate::base::{Color, Direction, Position};
use crate::base::a_move::{Move, MoveType};
use crate::figure::{Figure, FigureType};
use crate::base::direction::spec_all_directions;
use crate::figure::functions::check_search::{spec_find_attack_from_behind, spec_gives_chess, spec_is_king_in_check, spec_taken_pawn_pos, Attack};
use crate::figure::functions::checkmate::{
    attack_situation_ready, castling_rook_row, checking_field, king_can_escape, king_escape_at, spec_attack_situation,
    AttackerNumber,
};
use crate::figure::functions::move_symmetry::lemma_toggled_content;
use crate::figure::functions::symmetry::{lemma_check_symmetric, lemma_mirror_first_occupied, lemma_mirror_step, lemma_toggled_cell_at};
use crate::game::board::{first_occupied, lemma_steps_left, lemma_toggle_index, path_free, steps_left, toggle_index, toggled_cell, toggled_cells};

verus! {

/// An attack seen from the other side: the line mirrored, the attacker's field toggled.
pub open spec fn mirror_attack(a: Attack) -> Attack {
    match a {
        Attack::OnLine(d, n) => Attack::OnLine(d.spec_mirror(), n),
        Attack::ByPawn(p) => Attack::ByPawn(p.spec_toggle_row()),
        Attack::ByKnight(p) => Attack::ByKnight(p.spec_toggle_row()),
    }
}

/// A possible attack seen from the other side.
pub open spec fn mirror_opt_attack(a: Option<Attack>) -> Option<Attack> {
    match a {
        Some(x) => Some(mirror_attack(x)),
        None => None,
    }
}

/// The direction between two fields seen from the other side is the mirrored direction.
pub proof fn lemma_mirror_get_direction(p: Position, q: Position)
    requires
        p.wf(),
        q.wf(),
    ensures
        p.spec_toggle_row().spec_get_direction(q.spec_toggle_row()) == (match p.spec_get_direction(q) {
            Some(d) => Some(d.spec_mirror()),
            None => None,
        }),
        p.spec_toggle_row().spec_is_reachable_by_knight(q.spec_toggle_row()) == p.spec_is_reachable_by_knight(q),
{
}

/// A path between two fields is free exactly when, seen from the other side, the mirrored path
/// is.
pub proof fn lemma_mirror_path_free(cells: Seq<Option<Figure>>, p: Position, d: Direction, to: Position)
    requires
        p.wf(),
        to.wf(),
        cells.len() == 64,
    ensures
        path_free(toggled_cells(cells), p.spec_toggle_row(), d.spec_mirror(), to.spec_toggle_row()) == path_free(cells, p, d, to),
    decreases steps_left(p, d),
{
    lemma_steps_left(p, d);
    lemma_mirror_step(p, d);
    crate::base::position::lemma_toggle_row_involution(p);
    crate::base::position::lemma_toggle_row_involution(to);
    lemma_steps_left(p.spec_toggle_row(), d.spec_mirror());
    if let Some(q) = p.spec_step(d) {
        crate::base::position::lemma_toggle_row_involution(q);
        lemma_toggled_cell_at(cells, q);
        if q != to {
            lemma_mirror_path_free(cells, q, d, to);
        }
    }
}

/// A direction and the mirrored one are straight, or diagonal, alike; mirroring is undone by
/// mirroring.
pub proof fn lemma_mirror_direction(d: Direction)
    ensures
        d.spec_mirror().spec_is_straight() == d.spec_is_straight(),
        d.spec_mirror().spec_is_diagonal() == d.spec_is_diagonal(),
        d.spec_mirror().spec_mirror() == d,
        d.spec_mirror().spec_reverse() == d.spec_reverse().spec_mirror(),
{
}

/// The attack a figure makes on the king is, seen from the other side, the mirrored attack.
pub proof fn lemma_mirror_gives_chess(cells: Seq<Option<Figure>>, attacker_pos: Position, king_pos: Position, king_color: Color)
    requires
        attacker_pos.wf(),
        king_pos.wf(),
        cells.len() == 64,
        cells[attacker_pos.index as int] is Some,
    ensures
        spec_gives_chess(toggled_cells(cells), attacker_pos.spec_toggle_row(), king_pos.spec_toggle_row(), king_color.spec_toggle())
            == mirror_opt_attack(spec_gives_chess(cells, attacker_pos, king_pos, king_color)),
{
    lemma_toggled_cell_at(cells, attacker_pos);
    lemma_mirror_get_direction(king_pos, attacker_pos);
    if let Some(d) = king_pos.spec_get_direction(attacker_pos) {
        lemma_mirror_path_free(cells, king_pos, d, attacker_pos);
        lemma_mirror_direction(d);
        let (fl, f, fr) = Direction::spec_forward_directions(king_color);
        assert(Direction::spec_forward_directions(king_color.spec_toggle()) == (fl.spec_mirror(), f.spec_mirror(), fr.spec_mirror()));
        lemma_mirror_direction(fl);
        lemma_mirror_direction(fr);
    }
}

/// The attack a figure behind a freed field makes is, seen from the other side, the mirrored
/// attack.
pub proof fn lemma_mirror_attack_from_behind(cells: Seq<Option<Figure>>, freed_up_pos: Position, king_pos: Position, king_color: Color)
    requires
        freed_up_pos.wf(),
        king_pos.wf(),
        cells.len() == 64,
    ensures
        spec_find_attack_from_behind(
            toggled_cells(cells),
            freed_up_pos.spec_toggle_row(),
            king_pos.spec_toggle_row(),
            king_color.spec_toggle(),
        ) == mirror_opt_attack(spec_find_attack_from_behind(cells, freed_up_pos, king_pos, king_color)),
{
    lemma_mirror_get_direction(king_pos, freed_up_pos);
    if let Some(d) = king_pos.spec_get_direction(freed_up_pos) {
        lemma_mirror_direction(d);
        lemma_mirror_first_occupied(cells, freed_up_pos, d);
        crate::game::board::lemma_first_occupied_fields(cells, freed_up_pos, d);
        if let Some(q) = first_occupied(cells, freed_up_pos, d) {
            lemma_toggled_cell_at(cells, q);
            crate::base::color::lemma_toggle_involution(king_color);
            crate::base::color::lemma_toggle_involution(cells[q.index as int]->0.color);
        }
    }
}

/// A count of attackers seen from the other side: the single attack mirrored.
pub open spec fn mirror_attacker_number(a: AttackerNumber) -> AttackerNumber {
    match a {
        AttackerNumber::Zero => AttackerNumber::Zero,
        AttackerNumber::One(x) => AttackerNumber::One(mirror_attack(x)),
        AttackerNumber::Two => AttackerNumber::Two,
    }
}

/// The mirrored move goes between the mirrored fields and keeps its type.
pub proof fn lemma_mirror_move_fields(m: Move)
    ensures
        m.spec_from().wf(),
        m.spec_to().wf(),
        m.spec_toggle_rows().spec_from() == m.spec_from().spec_toggle_row(),
        m.spec_toggle_rows().spec_to() == m.spec_to().spec_toggle_row(),
        m.spec_toggle_rows().spec_move_type() == m.spec_move_type(),
        spec_taken_pawn_pos(m.spec_toggle_rows()) == spec_taken_pawn_pos(m).spec_toggle_row(),
        spec_taken_pawn_pos(m).wf(),
{
    crate::base::a_move::lemma_move_fields_wf(m);
    crate::base::position::lemma_toggle_row_involution(m.spec_from());
    crate::base::position::lemma_toggle_row_involution(m.spec_to());
    crate::base::a_move::lemma_move_new_getters(m.spec_from().spec_toggle_row(), m.spec_to().spec_toggle_row(), m.spec_move_type());
}

/// After a castling the rook's end field, seen from the other side, is the mirrored field.
pub proof fn lemma_mirror_checking_field(turn_by: Color, m: Move)
    ensures
        checking_field(turn_by, m).wf(),
        checking_field(turn_by.spec_toggle(), m.spec_toggle_rows()) == checking_field(turn_by, m).spec_toggle_row(),
{
    lemma_mirror_move_fields(m);
}

/// The attacks on the king after a move are, seen from the other side after the mirrored move,
/// the mirrored attacks.
#[verifier::rlimit(40)]
pub proof fn lemma_mirror_attack_situation(
    cells: Seq<Option<Figure>>,
    turn_by: Color,
    king_pos: Position,
    king_color: Color,
    after_move: Move,
)
    requires
        cells.len() == 64,
        king_pos.wf(),
        attack_situation_ready(cells, turn_by, after_move, king_color),
    ensures
        spec_attack_situation(
            toggled_cells(cells),
            turn_by.spec_toggle(),
            king_pos.spec_toggle_row(),
            king_color.spec_toggle(),
            after_move.spec_toggle_rows(),
        ) == mirror_attacker_number(spec_attack_situation(cells, turn_by, king_pos, king_color, after_move)),
{
    lemma_mirror_move_fields(after_move);
    lemma_mirror_checking_field(turn_by, after_move);
    let cf = checking_field(turn_by, after_move);
    lemma_mirror_gives_chess(cells, cf, king_pos, king_color);
    lemma_mirror_attack_from_behind(cells, after_move.spec_from(), king_pos, king_color);
    lemma_mirror_attack_from_behind(cells, spec_taken_pawn_pos(after_move), king_pos, king_color);
}

/// The board with the king's field emptied, seen from the other side, is the toggled board with
/// the mirrored field emptied.
proof fn lemma_toggled_without(cells: Seq<Option<Figure>>, p: Position)
    requires
        cells.len() == 64,
        p.wf(),
    ensures
        toggled_cells(cells.update(p.index as int, None)) == toggled_cells(cells).update(p.spec_toggle_row().index as int, None),
{
    crate::base::position::lemma_position_at(p);
    lemma_toggle_index(p.index as int);
    assert forall|i: int| 0 <= i < 64 implies #[trigger] toggled_cells(cells.update(p.index as int, None))[i] == toggled_cells(
        cells,
    ).update(p.spec_toggle_row().index as int, None)[i] by {
        lemma_toggle_index(i);
    }
    assert(toggled_cells(cells.update(p.index as int, None)) =~= toggled_cells(cells).update(p.spec_toggle_row().index as int, None));
}

/// Seen from the other side, the king escapes in the mirrored direction exactly when it escapes
/// in the direction itself.
proof fn lemma_mirror_king_escape_at(cells: Seq<Option<Figure>>, king_pos: Position, king_color: Color, d: Direction)
    requires
        cells.len() == 64,
        king_pos.wf(),
    ensures
        king_escape_at(toggled_cells(cells), king_pos.spec_toggle_row(), king_color.spec_toggle(), d.spec_mirror())
            == king_escape_at(cells, king_pos, king_color, d),
{
    lemma_mirror_step(king_pos, d);
    lemma_steps_left(king_pos, d);
    if let Some(p) = king_pos.spec_step(d) {
        lemma_toggled_cell_at(cells, p);
        lemma_toggled_content(cells[p.index as int], king_color);
        lemma_toggled_without(cells, king_pos);
        lemma_check_symmetric(cells.update(king_pos.index as int, None), p, king_color);
    }
}

/// The index among all directions of the mirrored direction.
pub open spec fn mirror_dir_index(k: int) -> int {
    if k <= 4 {
        4 - k
    } else if k == 5 {
        7
    } else if k == 7 {
        5
    } else {
        6
    }
}

pub proof fn lemma_mirror_dir_index()
    ensures
        forall|k: int| 0 <= k < 8 ==> 0 <= #[trigger] mirror_dir_index(k) < 8 && mirror_dir_index(mirror_dir_index(k)) == k
            && spec_all_directions()[k].spec_mirror() == spec_all_directions()[mirror_dir_index(k)],
{
    assert forall|k: int| 0 <= k < 8 implies 0 <= #[trigger] mirror_dir_index(k) < 8 && mirror_dir_index(mirror_dir_index(k)) == k
        && spec_all_directions()[k].spec_mirror() == spec_all_directions()[mirror_dir_index(k)] by {
        if k == 0 {} else if k == 1 {} else if k == 2 {} else if k == 3 {} else if k == 4 {} else if k == 5 {} else if k == 6 {} else {}
    }
}

/// Seen from the other side, the king can escape exactly when it can escape on the board itself.
pub proof fn lemma_mirror_king_can_escape(cells: Seq<Option<Figure>>, king_pos: Position, king_color: Color)
    requires
        cells.len() == 64,
        king_pos.wf(),
    ensures
        king_can_escape(toggled_cells(cells), king_pos.spec_toggle_row(), king_color.spec_toggle())
            == king_can_escape(cells, king_pos, king_color),
{
    let t = toggled_cells(cells);
    let kp = king_pos.spec_toggle_row();
    let kc = king_color.spec_toggle();
    lemma_mirror_dir_index();
    if king_can_escape(cells, king_pos, king_color) {
        let k = choose|k: int| 0 <= k < 8 && #[trigger] king_escape_at(cells, king_pos, king_color, spec_all_directions()[k]);
        lemma_mirror_king_escape_at(cells, king_pos, king_color, spec_all_directions()[k]);
        assert(king_escape_at(t, kp, kc, spec_all_directions()[mirror_dir_index(k)]));
    }
    if king_can_escape(t, kp, kc) {
        let k = choose|k: int| 0 <= k < 8 && #[trigger] king_escape_at(t, kp, kc, spec_all_directions()[k]);
        let j = mirror_dir_index(k);
        lemma_mirror_king_escape_at(cells, king_pos, king_color, spec_all_directions()[j]);
        assert(spec_all_directions()[j].spec_mirror() == spec_all_directions()[k]);
        assert(king_escape_at(cells, king_pos, king_color, spec_all_directions()[j]));
    }
}

} // verus!
