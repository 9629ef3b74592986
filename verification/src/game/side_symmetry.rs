use vstd::prelude::*;
use crate::base::{Color, Position};
use crate::base::a_move::Move;
use crate::figure::functions::checkmate::{attack_situation_ready, checking_field, spec_is_active_king_checkmate};
use crate::figure::functions::checkmate_symmetry::lemma_mirror_checking_field;
use crate::figure::functions::defence_symmetry::lemma_checkmate_symmetric;
use crate::figure::functions::move_symmetry::lemma_mirror_reachable_moves_len;
use crate::figure::functions::check_search::spec_is_king_in_check;
use crate::figure::functions::symmetry::{lemma_check_symmetric, lemma_toggled_cell_at};
use crate::figure::functions::reachable::spec_reachable_moves_of;
use crate::game::GameState;
use crate::game::board::{figures_of_color, lemma_board_len, lemma_toggle_index, toggle_index, toggled_cells};
use crate::game::game_state::{reachable_moves_of_figures, GameStateModel};

verus! {

/// The sum of `g` over the integers from `lo` up to, not including, `hi`.
pub open spec fn sum_to(g: spec_fn(int) -> nat, lo: int, hi: int) -> nat
    decreases hi - lo,
{
    if hi <= lo {
        0
    } else {
        sum_to(g, lo, hi - 1) + g(hi - 1)
    }
}

/// A sum splits at any point between its bounds.
proof fn lemma_sum_split(g: spec_fn(int) -> nat, lo: int, mid: int, hi: int)
    requires
        lo <= mid <= hi,
    ensures
        sum_to(g, lo, hi) == sum_to(g, lo, mid) + sum_to(g, mid, hi),
    decreases hi - mid,
{
    if hi > mid {
        lemma_sum_split(g, lo, mid, hi - 1);
    }
}

/// Two sums over ranges of equal length agree when their terms agree one by one.
proof fn lemma_sum_shift(g: spec_fn(int) -> nat, h: spec_fn(int) -> nat, a: int, b: int, n: int)
    requires
        0 <= n,
        forall|k: int| 0 <= k < n ==> #[trigger] h(a + k) == g(b + k),
    ensures
        sum_to(h, a, a + n) == sum_to(g, b, b + n),
    decreases n,
{
    if n > 0 {
        lemma_sum_shift(g, h, a, b, n - 1);
        assert(h(a + (n - 1)) == g(b + (n - 1)));
    }
}

/// Summed over the first `r` rows, the terms of the mirrored rows give the sum over the last `r`
/// rows.
proof fn lemma_sum_toggled_rows(g: spec_fn(int) -> nat, h: spec_fn(int) -> nat, r: int)
    requires
        0 <= r <= 8,
        forall|i: int| 0 <= i < 64 ==> #[trigger] h(i) == g(toggle_index(i)),
    ensures
        sum_to(h, 0, 8 * r) == sum_to(g, 64 - 8 * r, 64),
    decreases r,
{
    if r > 0 {
        let q = r - 1;
        lemma_sum_toggled_rows(g, h, q);
        lemma_sum_split(h, 0, 8 * q, 8 * q + 8);
        lemma_sum_split(g, 56 - 8 * q, 64 - 8 * q, 64);
        assert forall|k: int| 0 <= k < 8 implies #[trigger] h(8 * q + k) == g((56 - 8 * q) + k) by {
            assert((8 * q + k) / 8 == q);
            assert((8 * q + k) % 8 == k);
        }
        lemma_sum_shift(g, h, 8 * q, 56 - 8 * q, 8);
    }
}

/// Summing the terms of the mirrored fields over the board gives the sum over the board.
pub proof fn lemma_sum_toggled(g: spec_fn(int) -> nat, h: spec_fn(int) -> nat)
    requires
        forall|i: int| 0 <= i < 64 ==> #[trigger] h(i) == g(toggle_index(i)),
    ensures
        sum_to(h, 0, 64) == sum_to(g, 0, 64),
{
    lemma_sum_toggled_rows(g, h, 8);
}

/// The number of moves of the figure on the field with index `i`, if it belongs to the side to
/// move.
pub open spec fn moves_at(s: GameStateModel, i: int) -> nat {
    match s.cells[i] {
        Some(f) => if f.color == s.turn_by {
            spec_reachable_moves_of(s, f.fig_type, Position::spec_from_index(i)).len()
        } else {
            0
        },
        None => 0,
    }
}

/// The moves of the figures on the first `n` fields, counted field by field.
proof fn lemma_reachable_moves_prefix(s: GameStateModel, n: int)
    requires
        0 <= n <= s.cells.len(),
    ensures
        reachable_moves_of_figures(s, figures_of_color(s.cells.take(n), s.turn_by)).len() == sum_to(
            |i: int| moves_at(s, i),
            0,
            n,
        ),
    decreases n,
{
    let g = |i: int| moves_at(s, i);
    let cells = s.cells.take(n);
    if n == 0 {
        assert(cells =~= Seq::<Option<crate::figure::Figure>>::empty());
    } else {
        lemma_reachable_moves_prefix(s, n - 1);
        assert(cells.drop_last() =~= s.cells.take(n - 1));
        let rest = figures_of_color(s.cells.take(n - 1), s.turn_by);
        if let Some(f) = s.cells[n - 1] {
            if f.color == s.turn_by {
                let figs = rest.push((f, Position::spec_from_index(n - 1)));
                assert(figs.drop_last() =~= rest);
            }
        }
        assert(g(n - 1) == moves_at(s, n - 1));
    }
}

/// The figure on a field of the toggled board has as many moves as the figure on the mirrored
/// field of the board.
proof fn lemma_moves_at_toggled(s: GameStateModel, i: int)
    requires
        0 <= i < 64,
        s.cells.len() == 64,
        s.en_passant matches Some(e) ==> e.wf(),
    ensures
        moves_at(s.toggled(), i) == moves_at(s, toggle_index(i)),
{
    let j = toggle_index(i);
    lemma_toggle_index(i);
    lemma_toggle_index(j);
    crate::base::position::lemma_from_index_wf(i);
    crate::base::position::lemma_from_index_wf(j);
    let p = Position::spec_from_index(j);
    crate::base::position::lemma_toggle_row_involution(p);
    crate::base::position::lemma_position_eq_by_index(p.spec_toggle_row(), Position::spec_from_index(i));
    assert(s.toggled().cells[i] == crate::game::board::toggled_cell(s.cells[j]));
    crate::base::color::lemma_toggle_involution(s.turn_by);
    if let Some(f) = s.cells[j] {
        crate::base::color::lemma_toggle_involution(f.color);
        lemma_mirror_reachable_moves_len(s, f.fig_type, p);
    }
}

/// Seen from the other side, the side to move has as many moves: the figures stand on mirrored
/// fields and each has as many moves there.
pub proof fn lemma_toggle_colors_keeps_move_count(s: GameState)
    requires
        s.wf(),
    ensures
        s.model().toggled().reachable_moves().len() == s.model().reachable_moves().len(),
{
    let m = s.model();
    let t = m.toggled();
    lemma_board_len(s.board);
    assert(t.cells.len() == 64);
    let g = |k: int| moves_at(m, k);
    let h = |k: int| moves_at(t, k);
    assert forall|i: int| 0 <= i < 64 implies #[trigger] h(i) == g(toggle_index(i)) by {
        lemma_moves_at_toggled(m, i);
    }
    lemma_sum_toggled(g, h);
    lemma_reachable_moves_prefix(m, 64);
    lemma_reachable_moves_prefix(t, 64);
    assert(m.cells.take(64) =~= m.cells);
    assert(t.cells.take(64) =~= t.cells);
}

/// Seen from the other side, after the mirrored move, the king of the other color stands on the
/// mirrored field, the attack situation can be read the same way, and that king is mate exactly
/// when the king is mate in the position itself.
pub proof fn lemma_toggle_colors_keeps_checkmate(s: GameState, king_color: Color, after_move: Move)
    requires
        s.wf(),
        attack_situation_ready(s.board@, s.turn_by, after_move, king_color),
    ensures
        s.model().toggled().king_pos_of(king_color.spec_toggle()) == s.model().king_pos_of(king_color).spec_toggle_row(),
        attack_situation_ready(
            s.model().toggled().cells,
            s.model().toggled().turn_by,
            after_move.spec_toggle_rows(),
            king_color.spec_toggle(),
        ),
        spec_is_active_king_checkmate(
            s.model().toggled(),
            s.model().toggled().king_pos_of(king_color.spec_toggle()),
            king_color.spec_toggle(),
            after_move.spec_toggle_rows(),
        ) == spec_is_active_king_checkmate(s.model(), s.model().king_pos_of(king_color), king_color, after_move),
{
    let m = s.model();
    lemma_board_len(s.board);
    lemma_mirror_checking_field(s.turn_by, after_move);
    let cf = checking_field(s.turn_by, after_move);
    lemma_toggled_cell_at(m.cells, cf);
    crate::base::color::lemma_toggle_involution(king_color);
    crate::base::color::lemma_toggle_involution(m.cells[cf.index as int]->0.color);
    lemma_checkmate_symmetric(m, m.king_pos_of(king_color), king_color, after_move);
}

/// Seen from the other side, the side to move is in check exactly when it is in check in the
/// position itself.
pub proof fn lemma_toggle_colors_keeps_check(s: GameState)
    requires
        s.wf(),
    ensures
        s.model().toggled().active_king() == s.active_king().spec_toggle_row(),
        spec_is_king_in_check(s.model().toggled().cells, s.model().toggled().active_king(), s.model().toggled().turn_by)
            == spec_is_king_in_check(s.board@, s.active_king(), s.turn_by),
{
    lemma_board_len(s.board);
    lemma_check_symmetric(s.board@, s.active_king(), s.turn_by);
}

} // verus!
