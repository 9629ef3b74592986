use vstd::prelude::*;
use crate::base::{Color, Direction, Position};
use crate::base::a_move::{Move, MoveType, PromotionType};
use crate::base::direction::{spec_all_directions, spec_diagonal_directions, spec_straight_directions};
use crate::figure::{Figure, FigureType};
use crate::figure::functions::check_search::Attack;
use crate::figure::functions::checkmate::{
    bound_positions_in, defender_intercepts, intercepts_on_line, spec_attack_situation, spec_is_active_king_checkmate,
    spec_is_reachable, AttackerNumber,
};
use crate::figure::functions::reachable::{
    diagonal_pawn_moves, directed_moves, forward_pawn_moves, moves_to, normal_move, on_pawn_start_row, pawn_moves,
    pawn_moves_to, spec_reachable_moves_of,
};
use crate::figure::functions::checkmate::spec_reachable_by_pawn;
use crate::game::FieldContent;
use crate::game::board::{knight_jump, knight_targets_from, lemma_steps_left, path_free, ray_targets, spec_content_type, steps_left};
use crate::game::game_state::{king_of, GameStateModel};
use crate::game::board::figures_of_color;

verus! {

/// Every move in `moves` goes from `pos` to a field the figure of type `t` there reaches, as the
/// checkmate search sees it.
pub open spec fn all_reach(s: GameStateModel, t: FigureType, pos: Position, moves: Seq<Move>) -> bool {
    forall|k: int| 0 <= k < moves.len() ==> #[trigger] spec_is_reachable(s, t, pos, moves[k].spec_to())
}

proof fn lemma_reach_concat(s: GameStateModel, t: FigureType, pos: Position, a: Seq<Move>, b: Seq<Move>)
    requires
        all_reach(s, t, pos, a),
        all_reach(s, t, pos, b),
    ensures
        all_reach(s, t, pos, a + b),
{
    assert forall|k: int| 0 <= k < (a + b).len() implies #[trigger] spec_is_reachable(s, t, pos, (a + b)[k].spec_to()) by {
        if k < a.len() {
            assert((a + b)[k] == a[k]);
        } else {
            assert((a + b)[k] == b[k - a.len()]);
        }
    }
}

/// One step further along a line keeps the direction of the line.
proof fn lemma_direction_extends(p: Position, d: Direction, q: Position)
    requires
        p.wf(),
        q.wf(),
        p.spec_step(d) matches Some(p1) && p1.spec_get_direction(q) == Some(d),
    ensures
        p.spec_get_direction(q) == Some(d),
{
}

/// Every field of a line a rook, bishop or queen reaches lies in that direction, with the
/// fields before it free.
proof fn lemma_ray_targets_on_line(cells: Seq<Option<Figure>>, p: Position, d: Direction, color: Color)
    requires
        p.wf(),
        cells.len() == 64,
    ensures
        forall|k: int| 0 <= k < ray_targets(cells, p, d, color).len() ==> {
            let q = #[trigger] ray_targets(cells, p, d, color)[k];
            &&& q.wf()
            &&& p.spec_get_direction(q) == Some(d)
            &&& path_free(cells, p, d, q)
        },
    decreases steps_left(p, d),
{
    lemma_steps_left(p, d);
    if let Some(q1) = p.spec_step(d) {
        assert(p.spec_get_direction(q1) == Some(d));
        if cells[q1.index as int] is None {
            lemma_ray_targets_on_line(cells, q1, d, color);
            let rest = ray_targets(cells, q1, d, color);
            let all = ray_targets(cells, p, d, color);
            assert(all == seq![q1] + rest);
            assert forall|k: int| 0 <= k < all.len() implies {
                let q = #[trigger] all[k];
                &&& q.wf()
                &&& p.spec_get_direction(q) == Some(d)
                &&& path_free(cells, p, d, q)
            } by {
                if k > 0 {
                    let q = all[k];
                    assert(q == rest[k - 1]);
                    crate::base::position::lemma_get_direction_step(q1, q);
                    lemma_direction_extends(p, d, q);
                }
            }
        }
    }
}

/// The moves of a rook, bishop or queen along the given directions all reach their fields.
proof fn lemma_directed_reach(s: GameStateModel, t: FigureType, pos: Position, dirs: Seq<Direction>)
    requires
        pos.wf(),
        s.cells.len() == 64,
        t == FigureType::Rook ==> forall|j: int| 0 <= j < dirs.len() ==> (#[trigger] dirs[j]).spec_is_straight(),
        t == FigureType::Bishop ==> forall|j: int| 0 <= j < dirs.len() ==> (#[trigger] dirs[j]).spec_is_diagonal(),
        t == FigureType::Rook || t == FigureType::Bishop || t == FigureType::Queen,
    ensures
        all_reach(s, t, pos, directed_moves(s.cells, s.turn_by, pos, dirs)),
    decreases dirs.len(),
{
    if dirs.len() > 0 {
        let dl = dirs.drop_last();
        assert forall|j: int| 0 <= j < dl.len() implies (t == FigureType::Rook ==> (#[trigger] dl[j]).spec_is_straight())
            && (t == FigureType::Bishop ==> dl[j].spec_is_diagonal()) by {
            assert(dl[j] == dirs[j]);
        }
        lemma_directed_reach(s, t, pos, dl);
        let d = dirs.last();
        assert(d == dirs[dirs.len() - 1]);
        lemma_ray_targets_on_line(s.cells, pos, d, s.turn_by);
        let targets = ray_targets(s.cells, pos, d, s.turn_by);
        assert forall|k: int| 0 <= k < moves_to(pos, targets).len() implies #[trigger] spec_is_reachable(
            s,
            t,
            pos,
            moves_to(pos, targets)[k].spec_to(),
        ) by {
            let q = targets[k];
            crate::base::a_move::lemma_move_new_getters(pos, q, MoveType::Normal);
            assert(moves_to(pos, targets)[k] == normal_move(pos, q));
        }
        lemma_reach_concat(s, t, pos, directed_moves(s.cells, s.turn_by, pos, dl), moves_to(pos, targets));
    }
}

/// A knight's jumps are the fields its knight moves reach.
proof fn lemma_knight_reach(s: GameStateModel, pos: Position)
    requires
        pos.wf(),
        s.cells.len() == 64,
    ensures
        all_reach(s, FigureType::Knight, pos, moves_to(pos, knight_targets_from(s.cells, pos, s.turn_by, 0))),
{
    crate::figure::functions::symmetry::lemma_knight_targets_members(s.cells, pos, s.turn_by, 0);
    crate::game::board::lemma_knight_targets_fields(s.cells, pos, s.turn_by, 0);
    let targets = knight_targets_from(s.cells, pos, s.turn_by, 0);
    assert forall|k: int| 0 <= k < moves_to(pos, targets).len() implies #[trigger] spec_is_reachable(
        s,
        FigureType::Knight,
        pos,
        moves_to(pos, targets)[k].spec_to(),
    ) by {
        let q = targets[k];
        crate::base::a_move::lemma_move_new_getters(pos, q, MoveType::Normal);
        assert(moves_to(pos, targets)[k] == normal_move(pos, q));
        let i = choose|i: int| 0 <= i < 8 && #[trigger] knight_jump(pos, i) == Some(q) && spec_content_type(
            s.cells[q.index as int],
            s.turn_by,
        ) != FieldContent::OwnFigure;
        assert(pos.spec_is_reachable_by_knight(q));
    }
}

/// The pawn moves onto one field reach it, when the pawn reaches it.
proof fn lemma_pawn_moves_to_reach(s: GameStateModel, pos: Position, to: Position)
    requires
        pos.wf(),
        to.wf(),
        spec_reachable_by_pawn(s, pos, to),
    ensures
        all_reach(s, FigureType::Pawn, pos, pawn_moves_to(pos, to)),
{
    crate::base::a_move::lemma_move_new_getters(pos, to, MoveType::Normal);
    crate::base::a_move::lemma_move_new_getters(pos, to, MoveType::PawnPromotion(PromotionType::Queen));
    crate::base::a_move::lemma_move_new_getters(pos, to, MoveType::PawnPromotion(PromotionType::Knight));
    assert forall|k: int| 0 <= k < pawn_moves_to(pos, to).len() implies #[trigger] spec_is_reachable(
        s,
        FigureType::Pawn,
        pos,
        pawn_moves_to(pos, to)[k].spec_to(),
    ) by {}
}

/// A pawn's diagonal moves reach their fields.
proof fn lemma_pawn_diagonal_reach(s: GameStateModel, pos: Position, d: Direction)
    requires
        pos.wf(),
        s.cells.len() == 64,
        d == Direction::spec_forward_directions(s.turn_by).0 || d == Direction::spec_forward_directions(s.turn_by).2,
    ensures
        all_reach(s, FigureType::Pawn, pos, diagonal_pawn_moves(s.cells, s.turn_by, pos, pos.spec_step(d), s.en_passant)),
{
    let dm = diagonal_pawn_moves(s.cells, s.turn_by, pos, pos.spec_step(d), s.en_passant);
    if let Some(p) = pos.spec_step(d) {
        lemma_steps_left(pos, d);
        match spec_content_type(s.cells[p.index as int], s.turn_by) {
            FieldContent::OpponentFigure => {
                assert(spec_reachable_by_pawn(s, pos, p));
                lemma_pawn_moves_to_reach(s, pos, p);
            },
            FieldContent::Empty => {
                if s.en_passant == Some(p) {
                    crate::base::a_move::lemma_move_new_getters(pos, p, MoveType::EnPassant);
                    assert(spec_reachable_by_pawn(s, pos, p));
                    assert(dm =~= seq![Move::spec_new(pos, p, MoveType::EnPassant)]);
                } else {
                    assert(dm =~= Seq::<Move>::empty());
                }
            },
            FieldContent::OwnFigure => {
                assert(dm =~= Seq::<Move>::empty());
            },
        }
    } else {
        assert(dm =~= Seq::<Move>::empty());
    }
}

/// A pawn's forward moves reach their fields.
proof fn lemma_pawn_forward_reach(s: GameStateModel, pos: Position)
    requires
        pos.wf(),
        s.cells.len() == 64,
    ensures
        all_reach(s, FigureType::Pawn, pos, forward_pawn_moves(s.cells, s.turn_by, pos)),
{
    let forward = Direction::spec_forward_directions(s.turn_by).1;
    let fw = forward_pawn_moves(s.cells, s.turn_by, pos);
    if let Some(p) = pos.spec_step(forward) {
        lemma_steps_left(pos, forward);
        if s.cells[p.index as int] is None {
            assert(spec_reachable_by_pawn(s, pos, p));
            lemma_pawn_moves_to_reach(s, pos, p);
            if on_pawn_start_row(pos, s.turn_by) {
                let dp = p.spec_step(forward)->0;
                lemma_steps_left(p, forward);
                if s.cells[dp.index as int] is None {
                    assert(Position::spec_at(pos.column as int, pos.row + (if s.turn_by == Color::White { 1int } else { -1int })) == p);
                    assert(spec_reachable_by_pawn(s, pos, dp));
                    lemma_pawn_moves_to_reach(s, pos, dp);
                    lemma_reach_concat(s, FigureType::Pawn, pos, pawn_moves_to(pos, p), pawn_moves_to(pos, dp));
                } else {
                    assert(pawn_moves_to(pos, p) + Seq::<Move>::empty() =~= pawn_moves_to(pos, p));
                }
            } else {
                assert(pawn_moves_to(pos, p) + Seq::<Move>::empty() =~= pawn_moves_to(pos, p));
            }
        } else {
            assert(fw =~= Seq::<Move>::empty());
        }
    } else {
        assert(fw =~= Seq::<Move>::empty());
    }
}

/// Every move a figure other than a king of the side to move reaches goes to a field the
/// checkmate search counts as reachable for it.
pub proof fn lemma_reachable_moves_reach(s: GameStateModel, t: FigureType, pos: Position)
    requires
        pos.wf(),
        s.cells.len() == 64,
        t != FigureType::King,
    ensures
        all_reach(s, t, pos, spec_reachable_moves_of(s, t, pos)),
{
    match t {
        FigureType::Pawn => {
            let (fl, _, fr) = Direction::spec_forward_directions(s.turn_by);
            lemma_pawn_diagonal_reach(s, pos, fl);
            lemma_pawn_diagonal_reach(s, pos, fr);
            lemma_pawn_forward_reach(s, pos);
            let d1 = diagonal_pawn_moves(s.cells, s.turn_by, pos, pos.spec_step(fl), s.en_passant);
            let d2 = diagonal_pawn_moves(s.cells, s.turn_by, pos, pos.spec_step(fr), s.en_passant);
            lemma_reach_concat(s, t, pos, d1, d2);
            lemma_reach_concat(s, t, pos, d1 + d2, forward_pawn_moves(s.cells, s.turn_by, pos));
        },
        FigureType::Knight => lemma_knight_reach(s, pos),
        FigureType::Rook => lemma_directed_reach(s, t, pos, spec_straight_directions()),
        FigureType::Bishop => lemma_directed_reach(s, t, pos, spec_diagonal_directions()),
        _ => lemma_directed_reach(s, t, pos, spec_all_directions()),
    }
}

/// A king checked by a single knight is not mate when a figure of its side that does not shield
/// it from another attack (is not pinned), and is not the king, has a move onto the knight's
/// field: it can take the knight.
pub proof fn lemma_capturable_knight_is_no_mate(
    s: GameStateModel,
    king_pos: Position,
    king_color: Color,
    after_move: Move,
    knight_pos: Position,
    defender: Figure,
    defender_pos: Position,
    k: int,
)
    requires
        s.cells.len() == 64,
        king_pos.wf(),
        s.turn_by == king_color,
        s.cells[king_pos.index as int] == Some(king_of(king_color)),
        spec_attack_situation(s.cells, s.turn_by, king_pos, king_color, after_move) == AttackerNumber::One(
            Attack::ByKnight(knight_pos),
        ),
        defender_pos.wf(),
        s.cells[defender_pos.index as int] == Some(defender),
        defender.color == king_color,
        defender.fig_type != FigureType::King,
        !bound_positions_in(s.cells, king_pos, king_color, spec_all_directions()).contains(defender_pos),
        0 <= k < spec_reachable_moves_of(s, defender.fig_type, defender_pos).len(),
        spec_reachable_moves_of(s, defender.fig_type, defender_pos)[k].spec_to() == knight_pos,
    ensures
        !spec_is_active_king_checkmate(s, king_pos, king_color, after_move),
{
    lemma_answerable_single_attack_is_no_mate(
        s,
        king_pos,
        king_color,
        after_move,
        Attack::ByKnight(knight_pos),
        defender,
        defender_pos,
        k,
    );
}

/// The field `i` steps from `p` in direction `d`, if the board reaches that far.
pub open spec fn line_field(p: Position, d: Direction, i: nat) -> Option<Position>
    decreases i,
{
    if i == 0 {
        Some(p)
    } else {
        match p.spec_step(d) {
            Some(p1) => line_field(p1, d, (i - 1) as nat),
            None => None,
        }
    }
}

/// Whether a figure standing on `to` answers the attack on the king on `king_pos`: it stands on
/// the attacking pawn's or knight's field, or on a line attack on one of the fields from the one
/// next to the king up to the attacker's own.
pub open spec fn answers_attack(king_pos: Position, attack: Attack, to: Position) -> bool {
    match attack {
        Attack::ByPawn(p) => to == p,
        Attack::ByKnight(p) => to == p,
        Attack::OnLine(d, n) => exists|i: nat| 1 <= i <= n && #[trigger] line_field(king_pos, d, i) == Some(to),
    }
}

proof fn lemma_intercepts_on_line_at(
    s: GameStateModel,
    t: FigureType,
    fig_pos: Position,
    pos: Position,
    d: Direction,
    count: nat,
    i: nat,
    q: Position,
)
    requires
        1 <= i <= count,
        line_field(pos, d, i) == Some(q),
        spec_is_reachable(s, t, fig_pos, q),
    ensures
        intercepts_on_line(s, t, fig_pos, pos, d, count),
    decreases count,
{
    let p1 = pos.spec_step(d)->0;
    assert(pos.spec_step(d) == Some(p1));
    assert(line_field(p1, d, (i - 1) as nat) == Some(q));
    if i > 1 {
        lemma_intercepts_on_line_at(s, t, fig_pos, p1, d, (count - 1) as nat, (i - 1) as nat, q);
    } else {
        assert(line_field(p1, d, 0) == Some(p1));
        assert(p1 == q);
    }
}

/// A king under a single attack is not mate when a figure of its side that is not the king and
/// does not shield it from another attack (is not pinned) has a move that answers the attack:
/// onto the attacker's field, taking it, or, on a line attack, onto a field between the attacker
/// and the king.
pub proof fn lemma_answerable_single_attack_is_no_mate(
    s: GameStateModel,
    king_pos: Position,
    king_color: Color,
    after_move: Move,
    attack: Attack,
    defender: Figure,
    defender_pos: Position,
    k: int,
)
    requires
        s.cells.len() == 64,
        king_pos.wf(),
        s.turn_by == king_color,
        s.cells[king_pos.index as int] == Some(king_of(king_color)),
        spec_attack_situation(s.cells, s.turn_by, king_pos, king_color, after_move) == AttackerNumber::One(attack),
        defender_pos.wf(),
        s.cells[defender_pos.index as int] == Some(defender),
        defender.color == king_color,
        defender.fig_type != FigureType::King,
        !bound_positions_in(s.cells, king_pos, king_color, spec_all_directions()).contains(defender_pos),
        0 <= k < spec_reachable_moves_of(s, defender.fig_type, defender_pos).len(),
        answers_attack(king_pos, attack, spec_reachable_moves_of(s, defender.fig_type, defender_pos)[k].spec_to()),
    ensures
        !spec_is_active_king_checkmate(s, king_pos, king_color, after_move),
{
    let to = spec_reachable_moves_of(s, defender.fig_type, defender_pos)[k].spec_to();
    lemma_reachable_moves_reach(s, defender.fig_type, defender_pos);
    assert(spec_is_reachable(s, defender.fig_type, defender_pos, to));
    if let Attack::OnLine(d, n) = attack {
        let i = choose|i: nat| 1 <= i <= n && #[trigger] line_field(king_pos, d, i) == Some(to);
        lemma_intercepts_on_line_at(s, defender.fig_type, defender_pos, king_pos, d, n as nat, i, to);
    }
    let defenders = figures_of_color(s.cells, king_color);
    let bound = bound_positions_in(s.cells, king_pos, king_color, spec_all_directions());
    crate::base::position::lemma_from_index_wf(defender_pos.index as int);
    crate::base::position::lemma_position_eq_by_index(defender_pos, Position::spec_from_index(defender_pos.index as int));
    crate::figure::functions::defence_symmetry::lemma_figures_of_color_complete(s.cells, king_color, defender_pos.index as int);
    let j = choose|j: int| 0 <= j < defenders.len() && #[trigger] defenders[j] == (
        s.cells[defender_pos.index as int]->0,
        Position::spec_from_index(defender_pos.index as int),
    );
    assert(defenders[j] == (defender, defender_pos));
    assert(defender_pos != king_pos);
    assert(defender_intercepts(s, attack, king_pos, bound, defenders[j]));
}

} // verus!
