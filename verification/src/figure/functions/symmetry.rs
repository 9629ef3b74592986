use vstd::prelude::*;
use crate::base::{Color, Direction, Position};
use crate::figure::{Figure, FigureType};
use crate::figure::functions::check_search::{
    spec_backward_diagonal_attackable, spec_first_opposite, spec_forward_diagonal_attackable, spec_is_king_in_check,
    spec_knight_attackable, spec_straight_attackable,
};
use crate::figure::functions::castling::{
    spec_attackable_while_castling, spec_king_side_castling_allowed, spec_queen_side_castling_allowed,
};
use crate::game::FieldContent;
use crate::game::game_state::toggled_pos;
use crate::game::board::{
    first_occupied, knight_delta, knight_jump, knight_targets, knight_targets_from, lemma_steps_left, lemma_toggle_index,
    spec_content_type, steps_left, toggled_cell, toggled_cells,
};

verus! {

/// A step seen from the other side of the board is the mirrored step.
pub proof fn lemma_mirror_step(p: Position, d: Direction)
    requires
        p.wf(),
    ensures
        p.spec_toggle_row().spec_step(d.spec_mirror()) == (match p.spec_step(d) {
            Some(q) => Some(q.spec_toggle_row()),
            None => None,
        }),
        steps_left(p.spec_toggle_row(), d.spec_mirror()) == steps_left(p, d),
{
}

/// The toggled board holds on the mirrored field the toggled figure.
pub proof fn lemma_toggled_cell_at(cells: Seq<Option<Figure>>, p: Position)
    requires
        p.wf(),
    ensures
        p.spec_toggle_row().wf(),
        toggled_cells(cells)[p.spec_toggle_row().index as int] == toggled_cell(cells[p.index as int]),
{
    lemma_toggle_index(p.index as int);
    lemma_toggle_index(p.spec_toggle_row().index as int);
    crate::base::position::lemma_toggle_row_involution(p);
}

/// The first figure seen in a direction is, seen from the other side, the mirrored one.
pub proof fn lemma_mirror_first_occupied(cells: Seq<Option<Figure>>, p: Position, d: Direction)
    requires
        p.wf(),
    ensures
        first_occupied(toggled_cells(cells), p.spec_toggle_row(), d.spec_mirror()) == (match first_occupied(cells, p, d) {
            Some(q) => Some(q.spec_toggle_row()),
            None => None,
        }),
    decreases steps_left(p, d),
{
    lemma_steps_left(p, d);
    lemma_mirror_step(p, d);
    crate::base::position::lemma_toggle_row_involution(p);
    lemma_steps_left(p.spec_toggle_row(), d.spec_mirror());
    if let Some(q) = p.spec_step(d) {
        lemma_toggled_cell_at(cells, q);
        if cells[q.index as int] is None {
            lemma_mirror_first_occupied(cells, q, d);
        }
    }
}

/// The first opponent's figure seen from the king is, seen from the other side, the same.
pub proof fn lemma_mirror_first_opposite(cells: Seq<Option<Figure>>, king_pos: Position, color: Color, d: Direction)
    requires
        king_pos.wf(),
        cells.len() == 64,
    ensures
        spec_first_opposite(toggled_cells(cells), king_pos.spec_toggle_row(), color.spec_toggle(), d.spec_mirror())
            == spec_first_opposite(cells, king_pos, color, d),
{
    lemma_mirror_first_occupied(cells, king_pos, d);
    lemma_mirror_step(king_pos, d);
    if let Some(q) = first_occupied(cells, king_pos, d) {
        crate::game::board::lemma_first_occupied_fields(cells, king_pos, d);
        lemma_toggled_cell_at(cells, q);
        crate::base::color::lemma_toggle_involution(color);
        crate::base::color::lemma_toggle_involution(cells[q.index as int]->0.color);
        if let Some(s) = king_pos.spec_step(d) {
            crate::base::position::lemma_toggle_row_involution(q);
            crate::base::position::lemma_toggle_row_involution(s);
        }
    }
}

/// A knight jump seen from the other side is the jump with the mirrored row change.
pub proof fn lemma_mirror_knight_jump(p: Position, k: int)
    requires
        p.wf(),
        0 <= k < 8,
    ensures
        knight_jump(p.spec_toggle_row(), mirror_jump_index(k)) == (match knight_jump(p, k) {
            Some(q) => Some(q.spec_toggle_row()),
            None => None,
        }),
        0 <= mirror_jump_index(k) < 8,
        mirror_jump_index(mirror_jump_index(k)) == k,
{
}

/// The index of the knight jump with the same column change and the opposite row change.
pub open spec fn mirror_jump_index(k: int) -> int {
    if k % 2 == 0 {
        k + 1
    } else {
        k - 1
    }
}

/// Whether the k-th knight jump from `p` lands on an opponent's knight.
pub open spec fn knight_attack_at(cells: Seq<Option<Figure>>, p: Position, color: Color, k: int) -> bool {
    knight_jump(p, k) matches Some(q) && (cells[q.index as int] matches Some(f) && f.fig_type == FigureType::Knight
        && f.color != color)
}

/// The fields a knight reaches from the k-th jump on are the landing fields of those jumps that
/// hold no figure of its color.
pub proof fn lemma_knight_targets_members(cells: Seq<Option<Figure>>, p: Position, color: Color, k: int)
    requires
        p.wf(),
        cells.len() == 64,
        0 <= k <= 8,
    ensures
        forall|j: int| 0 <= j < knight_targets_from(cells, p, color, k).len() ==> exists|i: int| k <= i < 8 && #[trigger] knight_jump(p, i) == Some(
            #[trigger] knight_targets_from(cells, p, color, k)[j],
        ) && spec_content_type(cells[knight_targets_from(cells, p, color, k)[j].index as int], color)
            != FieldContent::OwnFigure,
        forall|i: int|
            k <= i < 8 && (#[trigger] knight_jump(p, i)) is Some && spec_content_type(
                cells[knight_jump(p, i)->0.index as int],
                color,
            ) != FieldContent::OwnFigure ==> knight_targets_from(cells, p, color, k).contains(knight_jump(p, i)->0),
    decreases 8 - k,
{
    if k < 8 {
        lemma_knight_targets_members(cells, p, color, k + 1);
        let rest = knight_targets_from(cells, p, color, k + 1);
        let all = knight_targets_from(cells, p, color, k);
        assert forall|j: int| 0 <= j < all.len() implies exists|i: int| k <= i < 8 && #[trigger] knight_jump(p, i) == Some(
            #[trigger] all[j],
        ) && spec_content_type(cells[all[j].index as int], color) != FieldContent::OwnFigure by {
            if all.len() == rest.len() + 1 && j == 0 {
                assert(knight_jump(p, k) == Some(all[0]));
            } else if all.len() == rest.len() + 1 {
                assert(all[j] == rest[j - 1]);
                let i = choose|i: int| k + 1 <= i < 8 && #[trigger] knight_jump(p, i) == Some(rest[j - 1]) && spec_content_type(
                    cells[rest[j - 1].index as int],
                    color,
                ) != FieldContent::OwnFigure;
                assert(knight_jump(p, i) == Some(all[j]));
            } else {
                assert(all[j] == rest[j]);
                let i = choose|i: int| k + 1 <= i < 8 && #[trigger] knight_jump(p, i) == Some(rest[j]) && spec_content_type(
                    cells[rest[j].index as int],
                    color,
                ) != FieldContent::OwnFigure;
                assert(knight_jump(p, i) == Some(all[j]));
            }
        }
        assert forall|i: int|
            k <= i < 8 && (#[trigger] knight_jump(p, i)) is Some && spec_content_type(
                cells[knight_jump(p, i)->0.index as int],
                color,
            ) != FieldContent::OwnFigure implies all.contains(knight_jump(p, i)->0) by {
            let q = knight_jump(p, i)->0;
            if i == k {
                assert(all[0] == q);
            } else {
                assert(rest.contains(q));
                let j = choose|j: int| 0 <= j < rest.len() && rest[j] == q;
                if all.len() == rest.len() + 1 {
                    assert(all[j + 1] == q);
                } else {
                    assert(all[j] == q);
                }
            }
        }
    }
}

/// A king is attacked by a knight exactly when one of the eight jumps from it lands on an
/// opponent's knight.
pub proof fn lemma_knight_attackable_by_jumps(cells: Seq<Option<Figure>>, p: Position, color: Color)
    requires
        p.wf(),
        cells.len() == 64,
    ensures
        spec_knight_attackable(cells, p, color) <==> exists|k: int| 0 <= k < 8 && #[trigger] knight_attack_at(cells, p, color, k),
{
    lemma_knight_targets_members(cells, p, color, 0);
    let targets = knight_targets(cells, p, color);
    if spec_knight_attackable(cells, p, color) {
        let j = choose|j: int| 0 <= j < targets.len() && (cells[#[trigger] targets[j].index as int] matches Some(f)
            && f.fig_type == FigureType::Knight);
        let i = choose|i: int| 0 <= i < 8 && #[trigger] knight_jump(p, i) == Some(#[trigger] targets[j])
            && spec_content_type(cells[targets[j].index as int], color) != FieldContent::OwnFigure;
        assert(knight_attack_at(cells, p, color, i));
    }
    if exists|k: int| 0 <= k < 8 && #[trigger] knight_attack_at(cells, p, color, k) {
        let k = choose|k: int| 0 <= k < 8 && #[trigger] knight_attack_at(cells, p, color, k);
        let q = knight_jump(p, k)->0;
        assert(targets.contains(q));
        let j = choose|j: int| 0 <= j < targets.len() && targets[j] == q;
        assert(cells[targets[j].index as int] matches Some(f) && f.fig_type == FigureType::Knight);
    }
}

/// The k-th knight jump lands on an opponent's knight exactly when the mirrored jump does so on
/// the toggled board.
proof fn lemma_mirror_knight_attack_at(cells: Seq<Option<Figure>>, p: Position, color: Color, k: int)
    requires
        p.wf(),
        0 <= k < 8,
    ensures
        knight_attack_at(cells, p, color, k) == knight_attack_at(
            toggled_cells(cells),
            p.spec_toggle_row(),
            color.spec_toggle(),
            mirror_jump_index(k),
        ),
{
    lemma_mirror_knight_jump(p, k);
    crate::base::color::lemma_toggle_involution(color);
    if let Some(q) = knight_jump(p, k) {
        crate::game::board::lemma_knight_jump_wf(p, k);
        lemma_toggled_cell_at(cells, q);
        if let Some(f) = cells[q.index as int] {
            crate::base::color::lemma_toggle_involution(f.color);
        }
    }
}

/// Seen from the other side, a knight attack stays a knight attack.
pub proof fn lemma_mirror_knight_attackable(cells: Seq<Option<Figure>>, p: Position, color: Color)
    requires
        p.wf(),
        cells.len() == 64,
    ensures
        spec_knight_attackable(toggled_cells(cells), p.spec_toggle_row(), color.spec_toggle()) == spec_knight_attackable(
            cells,
            p,
            color,
        ),
{
    let t = toggled_cells(cells);
    let mp = p.spec_toggle_row();
    let mc = color.spec_toggle();
    crate::base::position::lemma_toggle_row_involution(p);
    lemma_knight_attackable_by_jumps(cells, p, color);
    lemma_knight_attackable_by_jumps(t, mp, mc);
    if exists|k: int| 0 <= k < 8 && #[trigger] knight_attack_at(cells, p, color, k) {
        let k = choose|k: int| 0 <= k < 8 && #[trigger] knight_attack_at(cells, p, color, k);
        lemma_mirror_knight_attack_at(cells, p, color, k);
        lemma_mirror_knight_jump(p, k);
        assert(knight_attack_at(t, mp, mc, mirror_jump_index(k)));
    }
    if exists|k: int| 0 <= k < 8 && #[trigger] knight_attack_at(t, mp, mc, k) {
        let k = choose|k: int| 0 <= k < 8 && #[trigger] knight_attack_at(t, mp, mc, k);
        let k2 = mirror_jump_index(k);
        lemma_mirror_knight_jump(p, k);
        lemma_mirror_knight_attack_at(cells, p, color, k2);
        assert(mirror_jump_index(k2) == k);
        assert(knight_attack_at(cells, p, color, k2));
    }
}

/// A king seen from the other side of the board, with the colors swapped, is in check exactly
/// when it is in check on the board itself.
pub proof fn lemma_check_symmetric(cells: Seq<Option<Figure>>, king_pos: Position, color: Color)
    requires
        king_pos.wf(),
        cells.len() == 64,
    ensures
        spec_is_king_in_check(toggled_cells(cells), king_pos.spec_toggle_row(), color.spec_toggle())
            == spec_is_king_in_check(cells, king_pos, color),
{
    let (fl, f, fr) = Direction::spec_forward_directions(color);
    assert(Direction::spec_forward_directions(color.spec_toggle()) == (fl.spec_mirror(), f.spec_mirror(), fr.spec_mirror()));
    assert(Direction::Left.spec_mirror() == Direction::Left);
    assert(Direction::Right.spec_mirror() == Direction::Right);
    assert(f.spec_mirror().spec_reverse() == f.spec_reverse().spec_mirror());
    assert(fl.spec_mirror().spec_reverse() == fl.spec_reverse().spec_mirror());
    assert(fr.spec_mirror().spec_reverse() == fr.spec_reverse().spec_mirror());
    lemma_mirror_first_opposite(cells, king_pos, color, f);
    lemma_mirror_first_opposite(cells, king_pos, color, Direction::Left);
    lemma_mirror_first_opposite(cells, king_pos, color, Direction::Right);
    lemma_mirror_first_opposite(cells, king_pos, color, fl);
    lemma_mirror_first_opposite(cells, king_pos, color, fr);
    lemma_mirror_first_opposite(cells, king_pos, color, f.spec_reverse());
    lemma_mirror_first_opposite(cells, king_pos, color, fl.spec_reverse());
    lemma_mirror_first_opposite(cells, king_pos, color, fr.spec_reverse());
    lemma_mirror_knight_attackable(cells, king_pos, color);
}

/// A king passing a field while castling is attackable there exactly when, seen from the other
/// side, it is attackable on the mirrored field.
pub proof fn lemma_castling_attack_symmetric(cells: Seq<Option<Figure>>, king_pos: Position, color: Color)
    requires
        king_pos.wf(),
        cells.len() == 64,
    ensures
        spec_attackable_while_castling(toggled_cells(cells), king_pos.spec_toggle_row(), color.spec_toggle())
            == spec_attackable_while_castling(cells, king_pos, color),
{
    let (fl, f, fr) = Direction::spec_forward_directions(color);
    assert(Direction::spec_forward_directions(color.spec_toggle()) == (fl.spec_mirror(), f.spec_mirror(), fr.spec_mirror()));
    lemma_mirror_first_opposite(cells, king_pos, color, f);
    lemma_mirror_first_opposite(cells, king_pos, color, fl);
    lemma_mirror_first_opposite(cells, king_pos, color, fr);
    lemma_mirror_knight_attackable(cells, king_pos, color);
}

/// Castling seen from the other side: with the colors swapped and the rows mirrored, castling
/// to either side is allowed exactly when it is allowed on the board itself, and the king ends
/// on the mirrored field.
pub proof fn lemma_castling_symmetric(cells: Seq<Option<Figure>>, color: Color, king_pos: Position)
    requires
        king_pos.wf(),
        cells.len() == 64,
    ensures
        spec_queen_side_castling_allowed(toggled_cells(cells), color.spec_toggle(), king_pos.spec_toggle_row())
            == toggled_pos(spec_queen_side_castling_allowed(cells, color, king_pos)),
        spec_king_side_castling_allowed(toggled_cells(cells), color.spec_toggle(), king_pos.spec_toggle_row())
            == toggled_pos(spec_king_side_castling_allowed(cells, color, king_pos)),
{
    let t = toggled_cells(cells);
    let row = king_pos.row as int;
    let mrow = king_pos.spec_toggle_row().row as int;
    assert(mrow == 7 - row);
    assert forall|c: int| 0 <= c < 8 implies (#[trigger] t[Position::spec_at(c, mrow).index as int] is None)
        == (cells[Position::spec_at(c, row).index as int] is None) by {
        let p = Position::spec_at(c, row);
        lemma_toggled_cell_at(cells, p);
        assert(p.spec_toggle_row() == Position::spec_at(c, mrow));
    }
    assert forall|c: int| 0 <= c < 8 implies spec_attackable_while_castling(t, #[trigger] Position::spec_at(c, mrow), color.spec_toggle())
        == spec_attackable_while_castling(cells, Position::spec_at(c, row), color) by {
        let p = Position::spec_at(c, row);
        lemma_castling_attack_symmetric(cells, p, color);
        assert(p.spec_toggle_row() == Position::spec_at(c, mrow));
    }
    lemma_mirror_first_opposite(cells, king_pos, color, Direction::Right);
    lemma_mirror_first_opposite(cells, king_pos, color, Direction::Left);
    assert(Direction::Left.spec_mirror() == Direction::Left);
    assert(Direction::Right.spec_mirror() == Direction::Right);
    assert(Position::spec_at(2, row).spec_toggle_row() == Position::spec_at(2, mrow));
    assert(Position::spec_at(6, row).spec_toggle_row() == Position::spec_at(6, mrow));
    if spec_queen_side_castling_allowed(cells, color, king_pos) is None {
        if !(forall|c: int| 1 <= c <= 3 ==> cells[#[trigger] Position::spec_at(c, row).index as int] is None) {
            let c = choose|c: int| 1 <= c <= 3 && !(cells[#[trigger] Position::spec_at(c, row).index as int] is None);
            assert(!(t[Position::spec_at(c, mrow).index as int] is None));
        } else if !(forall|c: int| 2 <= c <= 4 ==> !spec_attackable_while_castling(cells, #[trigger] Position::spec_at(c, row), color)) {
            let c = choose|c: int| 2 <= c <= 4 && spec_attackable_while_castling(cells, #[trigger] Position::spec_at(c, row), color);
            assert(spec_attackable_while_castling(t, Position::spec_at(c, mrow), color.spec_toggle()));
        }
    }
    if spec_king_side_castling_allowed(cells, color, king_pos) is None {
        if !(forall|c: int| 5 <= c <= 6 ==> cells[#[trigger] Position::spec_at(c, row).index as int] is None) {
            let c = choose|c: int| 5 <= c <= 6 && !(cells[#[trigger] Position::spec_at(c, row).index as int] is None);
            assert(!(t[Position::spec_at(c, mrow).index as int] is None));
        } else if !(forall|c: int| 4 <= c <= 6 ==> !spec_attackable_while_castling(cells, #[trigger] Position::spec_at(c, row), color)) {
            let c = choose|c: int| 4 <= c <= 6 && spec_attackable_while_castling(cells, #[trigger] Position::spec_at(c, row), color);
            assert(spec_attackable_while_castling(t, Position::spec_at(c, mrow), color.spec_toggle()));
        }
    }
}

} // verus!
