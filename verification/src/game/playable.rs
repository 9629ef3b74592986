use vstd::prelude::*;
use crate::base::{Color, Direction, Position};
use crate::base::a_move::{CastlingType, Move, MoveType, PromotionType};
use crate::base::direction::{spec_all_directions, spec_diagonal_directions, spec_straight_directions};
use crate::figure::{Figure, FigureType};
use crate::figure::functions::checkmate::attack_situation_ready;
use crate::figure::functions::castling::{spec_king_side_castling_allowed, spec_queen_side_castling_allowed};
use crate::figure::functions::reachable::{
    castling_moves, diagonal_pawn_moves, directed_moves, forward_pawn_moves, king_step_moves, moves_to, normal_move,
    on_pawn_start_row, pawn_moves, pawn_moves_to, spec_reachable_moves_of,
};
use crate::game::FieldContent;
use crate::game::board::{knight_targets_from, lemma_knight_targets_fields, lemma_ray_targets_fields, ray_targets, figures_of_color, lemma_board_len, lemma_figures_of_color_entries, lemma_steps_left, spec_content_type};
use crate::game::game_state::{reachable_moves_of_figures, 
    black_king_side_rook_starting_pos, black_king_starting_pos, black_queen_side_rook_starting_pos, cell_at, is_king_of, king_of,
    lemma_unique_king, normal_cells, white_king_side_rook_starting_pos, white_king_starting_pos,
    white_queen_side_rook_starting_pos, classic_model, config_ok, configured_model, GameState, GameStateModel,
};
use crate::figure::FigureAndPosition;

verus! {

/// Every castling right a state keeps is backed by the board: the king of that color stands on
/// its starting field and a rook of that color in the corner.
pub open spec fn castling_rights_hold(s: GameStateModel) -> bool {
    let white_rook = Some(Figure { fig_type: FigureType::Rook, color: Color::White });
    let black_rook = Some(Figure { fig_type: FigureType::Rook, color: Color::Black });
    &&& s.white_queen_side ==> s.white_king == white_king_starting_pos() && s.cells[white_queen_side_rook_starting_pos().index as int] == white_rook
    &&& s.white_king_side ==> s.white_king == white_king_starting_pos() && s.cells[white_king_side_rook_starting_pos().index as int] == white_rook
    &&& s.black_queen_side ==> s.black_king == black_king_starting_pos() && s.cells[black_queen_side_rook_starting_pos().index as int] == black_rook
    &&& s.black_king_side ==> s.black_king == black_king_starting_pos() && s.cells[black_king_side_rook_starting_pos().index as int] == black_rook
}

/// The en-passant field, if any, lies on the sixth row seen from the side to move, just in
/// front of a pawn.
pub open spec fn en_passant_holds(s: GameStateModel) -> bool {
    s.en_passant matches Some(e) ==> {
        &&& e.row == (if s.turn_by == Color::White { 5int } else { 2int })
        &&& e.spec_step(Direction::spec_forward_directions(s.turn_by).1.spec_reverse()) matches Some(q)
            && s.cells[q.index as int] matches Some(f) && f.fig_type == FigureType::Pawn
    }
}

/// What the moves of a state need of it beyond being well formed: backed castling rights and
/// an en-passant field in front of a pawn.
pub open spec fn playable(s: GameStateModel) -> bool {
    castling_rights_hold(s) && en_passant_holds(s)
}

/// A move that does not end on a king's field can be made by `GameState::do_move` and, if it
/// castles, leaves the king on its new field.
pub open spec fn makeable(s: GameStateModel, m: Move) -> bool {
    m.spec_to() != s.white_king && m.spec_to() != s.black_king ==> s.can_do_move(m) && !s.rook_on_king_target(m)
        && ready_after(s, m) && playable(s.after(m))
}

/// After the move, the field from which it may give check holds a figure of the side that made
/// it, so the attack situation can be read (see `attack_situation_ready`).
pub open spec fn ready_after(s: GameStateModel, m: Move) -> bool {
    attack_situation_ready(s.after(m).cells, s.after(m).turn_by, m, s.after(m).turn_by)
}

pub open spec fn all_makeable(s: GameStateModel, moves: Seq<Move>) -> bool {
    forall|k: int| 0 <= k < moves.len() ==> #[trigger] makeable(s, moves[k])
}

proof fn lemma_makeable_concat(s: GameStateModel, a: Seq<Move>, b: Seq<Move>)
    requires
        all_makeable(s, a),
        all_makeable(s, b),
    ensures
        all_makeable(s, a + b),
{
    assert forall|k: int| 0 <= k < (a + b).len() implies #[trigger] makeable(s, (a + b)[k]) by {
        if k < a.len() {
            assert((a + b)[k] == a[k]);
        } else {
            assert((a + b)[k] == b[k - a.len()]);
        }
    }
}

/// A plain move of the figure on `pos` to a field without a figure of the side to move.
proof fn lemma_normal_move_makeable(s: GameStateModel, f: Figure, pos: Position, to: Position)
    requires
        s.cells.len() == 64,
        pos.wf(),
        to.wf(),
        s.cells[pos.index as int] == Some(f),
        f.color == s.turn_by,
        !(s.cells[to.index as int] matches Some(g) && g.color == s.turn_by),
        f.fig_type != FigureType::Pawn,
        playable(s),
    ensures
        makeable(s, normal_move(pos, to)),
{
    crate::base::a_move::lemma_move_new_getters(pos, to, MoveType::Normal);
    lemma_corners_apart(pos);
    lemma_corners_apart(to);
}

/// A field is one of the four corners exactly when its index is that corner's index.
proof fn lemma_corners_apart(p: Position)
    requires
        p.wf(),
    ensures
        (p.index == white_queen_side_rook_starting_pos().index) == (p == white_queen_side_rook_starting_pos()),
        (p.index == white_king_side_rook_starting_pos().index) == (p == white_king_side_rook_starting_pos()),
        (p.index == black_queen_side_rook_starting_pos().index) == (p == black_queen_side_rook_starting_pos()),
        (p.index == black_king_side_rook_starting_pos().index) == (p == black_king_side_rook_starting_pos()),
{
}

/// Plain moves of a figure other than a pawn to fields without a figure of the side to move
/// can all be made.
proof fn lemma_moves_to_makeable(s: GameStateModel, f: Figure, pos: Position, targets: Seq<Position>)
    requires
        s.cells.len() == 64,
        pos.wf(),
        s.cells[pos.index as int] == Some(f),
        f.color == s.turn_by,
        f.fig_type != FigureType::Pawn,
        forall|k: int| 0 <= k < targets.len() ==> {
            let q = #[trigger] targets[k];
            &&& q.wf()
            &&& !(s.cells[q.index as int] matches Some(g) && g.color == s.turn_by)
        },
        playable(s),
    ensures
        all_makeable(s, moves_to(pos, targets)),
{
    assert forall|k: int| 0 <= k < moves_to(pos, targets).len() implies #[trigger] makeable(s, moves_to(pos, targets)[k]) by {
        lemma_normal_move_makeable(s, f, pos, targets[k]);
    }
}

/// The moves of a rook, bishop or queen can all be made.
proof fn lemma_directed_makeable(s: GameStateModel, f: Figure, pos: Position, dirs: Seq<Direction>)
    requires
        s.cells.len() == 64,
        pos.wf(),
        s.cells[pos.index as int] == Some(f),
        f.color == s.turn_by,
        f.fig_type != FigureType::Pawn,
        playable(s),
    ensures
        all_makeable(s, directed_moves(s.cells, s.turn_by, pos, dirs)),
    decreases dirs.len(),
{
    if dirs.len() > 0 {
        lemma_directed_makeable(s, f, pos, dirs.drop_last());
        lemma_ray_targets_fields(s.cells, pos, dirs.last(), s.turn_by);
        lemma_moves_to_makeable(s, f, pos, ray_targets(s.cells, pos, dirs.last(), s.turn_by));
        lemma_makeable_concat(
            s,
            directed_moves(s.cells, s.turn_by, pos, dirs.drop_last()),
            moves_to(pos, ray_targets(s.cells, pos, dirs.last(), s.turn_by)),
        );
    }
}

/// A king's single steps can all be made.
proof fn lemma_king_steps_makeable(s: GameStateModel, f: Figure, pos: Position, dirs: Seq<Direction>)
    requires
        s.cells.len() == 64,
        pos.wf(),
        s.cells[pos.index as int] == Some(f),
        f.color == s.turn_by,
        f.fig_type == FigureType::King,
        playable(s),
    ensures
        all_makeable(s, king_step_moves(s.cells, s.turn_by, pos, dirs)),
    decreases dirs.len(),
{
    if dirs.len() > 0 {
        lemma_king_steps_makeable(s, f, pos, dirs.drop_last());
        let last = match pos.spec_step(dirs.last()) {
            Some(p) => if spec_content_type(s.cells[p.index as int], s.turn_by) != FieldContent::OwnFigure {
                seq![normal_move(pos, p)]
            } else {
                Seq::empty()
            },
            None => Seq::empty(),
        };
        if let Some(p) = pos.spec_step(dirs.last()) {
            lemma_steps_left(pos, dirs.last());
            if spec_content_type(s.cells[p.index as int], s.turn_by) != FieldContent::OwnFigure {
                lemma_normal_move_makeable(s, f, pos, p);
            }
        }
        assert(all_makeable(s, last));
        lemma_makeable_concat(s, king_step_moves(s.cells, s.turn_by, pos, dirs.drop_last()), last);
    }
}

/// A castling the side to move may make can be made: its king stands on its starting field,
/// the rook in the corner, and the fields the two go to are empty.
proof fn lemma_castlings_makeable(s: GameStateModel, pos: Position)
    requires
        s.cells.len() == 64,
        pos.wf(),
        s.white_king.wf(),
        s.black_king.wf(),
        s.cells[pos.index as int] == Some(king_of(s.turn_by)),
        cell_at(s.cells, s.white_king) == Some(king_of(Color::White)),
        cell_at(s.cells, s.black_king) == Some(king_of(Color::Black)),
        s.kings_unique(),
        castling_rights_hold(s),
    ensures
        ({
            let (qs, ks) = match s.turn_by {
                Color::White => (s.white_queen_side, s.white_king_side),
                Color::Black => (s.black_queen_side, s.black_king_side),
            };
            &&& all_makeable(s, castling_moves(pos, qs, spec_queen_side_castling_allowed(s.cells, s.turn_by, pos), CastlingType::QueenSide))
            &&& all_makeable(s, castling_moves(pos, ks, spec_king_side_castling_allowed(s.cells, s.turn_by, pos), CastlingType::KingSide))
        }),
{
    let color = s.turn_by;
    let kp = s.king_pos_of(color);
    lemma_unique_king(s.cells, pos.index as int, kp.index as int, color);
    crate::base::position::lemma_position_eq_by_index(pos, kp);
    assert(pos == kp);
    let row = pos.row as int;
    let (qs, ks) = match color {
        Color::White => (s.white_queen_side, s.white_king_side),
        Color::Black => (s.black_queen_side, s.black_king_side),
    };
    if qs && spec_queen_side_castling_allowed(s.cells, color, pos) is Some {
        let t = Position::spec_at(2, row);
        let m = Move::spec_new(pos, t, MoveType::Castling(CastlingType::QueenSide));
        crate::base::a_move::lemma_move_new_getters(pos, t, MoveType::Castling(CastlingType::QueenSide));
        assert(s.cells[Position::spec_at(2, row).index as int] is None);
        assert(s.cells[Position::spec_at(3, row).index as int] is None);
        assert(makeable(s, m));
        let cm = castling_moves(pos, qs, spec_queen_side_castling_allowed(s.cells, color, pos), CastlingType::QueenSide);
        assert(cm =~= seq![m]);
    }
    if ks && spec_king_side_castling_allowed(s.cells, color, pos) is Some {
        let t = Position::spec_at(6, row);
        let m = Move::spec_new(pos, t, MoveType::Castling(CastlingType::KingSide));
        crate::base::a_move::lemma_move_new_getters(pos, t, MoveType::Castling(CastlingType::KingSide));
        assert(s.cells[Position::spec_at(5, row).index as int] is None);
        assert(s.cells[Position::spec_at(6, row).index as int] is None);
        assert(makeable(s, m));
        let cm = castling_moves(pos, ks, spec_king_side_castling_allowed(s.cells, color, pos), CastlingType::KingSide);
        assert(cm =~= seq![m]);
    }
}

/// A pawn move to `to` of the given type can be made when, if it takes en-passant, no king
/// stands on the field of the taken pawn.
proof fn lemma_pawn_target_makeable(s: GameStateModel, f: Figure, pos: Position, to: Position, mt: MoveType)
    requires
        s.cells.len() == 64,
        pos.wf(),
        to.wf(),
        s.cells[pos.index as int] == Some(f),
        f.color == s.turn_by,
        f.fig_type == FigureType::Pawn,
        !(mt is Castling),
        pos.row != to.row,
        playable(s),
        (mt == MoveType::EnPassant || s.en_passant == Some(to)) && crate::base::position::abs(pos.row - to.row) != 2
            ==> !is_king_of(cell_at(normal_cells(s.cells, pos, to), Position::spec_at(to.column as int, pos.row as int)))
            && (Position::spec_at(to.column as int, pos.row as int) == pos || 0 < pos.row < 7),
        crate::base::position::abs(pos.row - to.row) == 2 ==> on_pawn_start_row(pos, s.turn_by) && to.column == pos.column,
    ensures
        makeable(s, Move::spec_new(pos, to, mt)),
{
    crate::base::a_move::lemma_move_new_getters(pos, to, mt);
    lemma_corners_apart(pos);
    lemma_corners_apart(to);
    let taken = Position::spec_at(to.column as int, pos.row as int);
    if 0 <= pos.row < 8 {
        crate::base::position::lemma_from_index_wf(taken.index as int);
        lemma_corners_apart(taken);
    }
}

/// The pawn moves onto one field can all be made under the same condition.
proof fn lemma_pawn_moves_to_makeable(s: GameStateModel, f: Figure, pos: Position, to: Position)
    requires
        s.cells.len() == 64,
        pos.wf(),
        to.wf(),
        s.cells[pos.index as int] == Some(f),
        f.color == s.turn_by,
        f.fig_type == FigureType::Pawn,
        pos.row != to.row,
        playable(s),
        s.en_passant == Some(to) && crate::base::position::abs(pos.row - to.row) != 2 ==> !is_king_of(
            cell_at(normal_cells(s.cells, pos, to), Position::spec_at(to.column as int, pos.row as int)),
        ) && (Position::spec_at(to.column as int, pos.row as int) == pos || 0 < pos.row < 7),
        crate::base::position::abs(pos.row - to.row) == 2 ==> on_pawn_start_row(pos, s.turn_by) && to.column == pos.column,
    ensures
        all_makeable(s, pawn_moves_to(pos, to)),
{
    lemma_pawn_target_makeable(s, f, pos, to, MoveType::Normal);
    lemma_pawn_target_makeable(s, f, pos, to, MoveType::PawnPromotion(PromotionType::Queen));
    lemma_pawn_target_makeable(s, f, pos, to, MoveType::PawnPromotion(PromotionType::Knight));
    assert forall|k: int| 0 <= k < pawn_moves_to(pos, to).len() implies #[trigger] makeable(s, pawn_moves_to(pos, to)[k]) by {}
}

/// A pawn's moves diagonally forward can all be made when the en-passant field lies in front
/// of a pawn.
proof fn lemma_pawn_diagonal_makeable(s: GameStateModel, f: Figure, pos: Position, d: Direction)
    requires
        s.cells.len() == 64,
        pos.wf(),
        s.cells[pos.index as int] == Some(f),
        f.color == s.turn_by,
        f.fig_type == FigureType::Pawn,
        playable(s),
        d == Direction::spec_forward_directions(s.turn_by).0 || d == Direction::spec_forward_directions(s.turn_by).2,
    ensures
        all_makeable(s, diagonal_pawn_moves(s.cells, s.turn_by, pos, pos.spec_step(d), s.en_passant)),
{
    let cells = s.cells;
    let color = s.turn_by;
    let forward = Direction::spec_forward_directions(color).1;
    let dm = diagonal_pawn_moves(cells, color, pos, pos.spec_step(d), s.en_passant);
    if let Some(p) = pos.spec_step(d) {
        lemma_steps_left(pos, d);
        let taken = Position::spec_at(p.column as int, pos.row as int);
        if s.en_passant == Some(p) {
            let q = p.spec_step(forward.spec_reverse())->0;
            assert(q == taken);
            assert(cells[taken.index as int] matches Some(g) && g.fig_type == FigureType::Pawn);
            assert(normal_cells(cells, pos, p)[taken.index as int] == cells[taken.index as int]);
            assert(0 < pos.row < 7);
        }
        match spec_content_type(cells[p.index as int], color) {
            FieldContent::OpponentFigure => lemma_pawn_moves_to_makeable(s, f, pos, p),
            FieldContent::Empty => {
                if s.en_passant == Some(p) {
                    lemma_pawn_target_makeable(s, f, pos, p, MoveType::EnPassant);
                    assert(dm =~= seq![Move::spec_new(pos, p, MoveType::EnPassant)]);
                } else {
                    assert(dm =~= Seq::<Move>::empty());
                }
            },
            FieldContent::OwnFigure => {
                assert(dm =~= Seq::<Move>::empty());
            },
        }
    } else {
        assert(dm =~= Seq::<Move>::empty());
    }
}

/// A pawn's moves forward can all be made.
proof fn lemma_pawn_forward_makeable(s: GameStateModel, f: Figure, pos: Position)
    requires
        s.cells.len() == 64,
        pos.wf(),
        s.cells[pos.index as int] == Some(f),
        f.color == s.turn_by,
        f.fig_type == FigureType::Pawn,
        playable(s),
    ensures
        all_makeable(s, forward_pawn_moves(s.cells, s.turn_by, pos)),
{
    let cells = s.cells;
    let color = s.turn_by;
    let forward = Direction::spec_forward_directions(color).1;
    let fw = forward_pawn_moves(cells, color, pos);
    if let Some(p) = pos.spec_step(forward) {
        lemma_steps_left(pos, forward);
        if cells[p.index as int] is None {
            let taken = Position::spec_at(p.column as int, pos.row as int);
            crate::base::position::lemma_position_eq_by_index(pos, p);
            assert(taken == pos);
            assert(normal_cells(cells, pos, p)[pos.index as int] is None);
            lemma_pawn_moves_to_makeable(s, f, pos, p);
            if on_pawn_start_row(pos, color) {
                let dp = p.spec_step(forward)->0;
                lemma_steps_left(p, forward);
                if cells[dp.index as int] is None {
                    lemma_pawn_moves_to_makeable(s, f, pos, dp);
                    lemma_makeable_concat(s, pawn_moves_to(pos, p), pawn_moves_to(pos, dp));
                } else {
                    assert(pawn_moves_to(pos, p) + Seq::<Move>::empty() =~= pawn_moves_to(pos, p));
                }
            } else {
                assert(pawn_moves_to(pos, p) + Seq::<Move>::empty() =~= pawn_moves_to(pos, p));
            }
        } else {
            assert(fw =~= Seq::<Move>::empty());
        }
    } else {
        assert(fw =~= Seq::<Move>::empty());
    }
}

/// A pawn's moves can all be made when the en-passant field lies in front of a pawn.
proof fn lemma_pawn_makeable(s: GameStateModel, f: Figure, pos: Position)
    requires
        s.cells.len() == 64,
        pos.wf(),
        s.cells[pos.index as int] == Some(f),
        f.color == s.turn_by,
        f.fig_type == FigureType::Pawn,
        playable(s),
    ensures
        all_makeable(s, pawn_moves(s.cells, s.turn_by, pos, s.en_passant)),
{
    let (forward_left, forward, forward_right) = Direction::spec_forward_directions(s.turn_by);
    lemma_pawn_diagonal_makeable(s, f, pos, forward_left);
    lemma_pawn_diagonal_makeable(s, f, pos, forward_right);
    lemma_pawn_forward_makeable(s, f, pos);
    let d1 = diagonal_pawn_moves(s.cells, s.turn_by, pos, pos.spec_step(forward_left), s.en_passant);
    let d2 = diagonal_pawn_moves(s.cells, s.turn_by, pos, pos.spec_step(forward_right), s.en_passant);
    lemma_makeable_concat(s, d1, d2);
    lemma_makeable_concat(s, d1 + d2, forward_pawn_moves(s.cells, s.turn_by, pos));
}

/// The moves a figure of the side to move reaches can all be made.
proof fn lemma_figure_moves_makeable(s: GameStateModel, f: Figure, pos: Position)
    requires
        s.cells.len() == 64,
        pos.wf(),
        s.white_king.wf(),
        s.black_king.wf(),
        s.cells[pos.index as int] == Some(f),
        f.color == s.turn_by,
        cell_at(s.cells, s.white_king) == Some(king_of(Color::White)),
        cell_at(s.cells, s.black_king) == Some(king_of(Color::Black)),
        s.kings_unique(),
        castling_rights_hold(s),
        en_passant_holds(s),
    ensures
        all_makeable(s, spec_reachable_moves_of(s, f.fig_type, pos)),
{
    match f.fig_type {
        FigureType::Pawn => lemma_pawn_makeable(s, f, pos),
        FigureType::King => {
            lemma_king_steps_makeable(s, f, pos, spec_all_directions());
            lemma_castlings_makeable(s, pos);
            let steps = king_step_moves(s.cells, s.turn_by, pos, spec_all_directions());
            let (qs, ks) = match s.turn_by {
                Color::White => (s.white_queen_side, s.white_king_side),
                Color::Black => (s.black_queen_side, s.black_king_side),
            };
            let q = castling_moves(pos, qs, spec_queen_side_castling_allowed(s.cells, s.turn_by, pos), CastlingType::QueenSide);
            let k = castling_moves(pos, ks, spec_king_side_castling_allowed(s.cells, s.turn_by, pos), CastlingType::KingSide);
            lemma_makeable_concat(s, steps, q);
            lemma_makeable_concat(s, steps + q, k);
        },
        FigureType::Knight => {
            lemma_knight_targets_fields(s.cells, pos, s.turn_by, 0);
            lemma_moves_to_makeable(s, f, pos, knight_targets_from(s.cells, pos, s.turn_by, 0));
        },
        FigureType::Rook => lemma_directed_makeable(s, f, pos, spec_straight_directions()),
        FigureType::Bishop => lemma_directed_makeable(s, f, pos, spec_diagonal_directions()),
        FigureType::Queen => lemma_directed_makeable(s, f, pos, spec_all_directions()),
    }
}

proof fn lemma_figures_makeable(s: GameStateModel, figs: Seq<(Figure, Position)>)
    requires
        s.cells.len() == 64,
        s.white_king.wf(),
        s.black_king.wf(),
        cell_at(s.cells, s.white_king) == Some(king_of(Color::White)),
        cell_at(s.cells, s.black_king) == Some(king_of(Color::Black)),
        s.kings_unique(),
        castling_rights_hold(s),
        en_passant_holds(s),
        forall|j: int| 0 <= j < figs.len() ==> {
            let (f, p) = #[trigger] figs[j];
            &&& p.wf()
            &&& s.cells[p.index as int] == Some(f)
            &&& f.color == s.turn_by
        },
    ensures
        all_makeable(s, reachable_moves_of_figures(s, figs)),
    decreases figs.len(),
{
    if figs.len() > 0 {
        let rest = figs.drop_last();
        assert forall|j: int| 0 <= j < rest.len() implies {
            let (f, p) = #[trigger] rest[j];
            &&& p.wf()
            &&& s.cells[p.index as int] == Some(f)
            &&& f.color == s.turn_by
        } by {
            assert(rest[j] == figs[j]);
        }
        lemma_figures_makeable(s, rest);
        let (f, p) = figs.last();
        assert(figs.last() == figs[figs.len() - 1]);
        lemma_figure_moves_makeable(s, f, p);
        lemma_makeable_concat(s, reachable_moves_of_figures(s, rest), spec_reachable_moves_of(s, f.fig_type, p));
    }
}

/// Every move the side to move reaches (so every move `get_reachable_moves` and
/// `get_allowed_moves` give) that does not end on a king's field can be made by `do_move`,
/// keeps the king where the state says, leaves the attack situation readable for the other side,
/// and leads to a state whose castling rights are again backed by the board and whose
/// en-passant field again lies in front of a pawn, when each side has one king and the state
/// itself is such a state (as the classic start and every accepted configuration are, see
/// `lemma_classic_playable` and `lemma_configured_playable`).
pub proof fn lemma_reachable_moves_can_be_made(s: GameState)
    requires
        s.wf(),
        s.kings_unique(),
        castling_rights_hold(s.model()),
        en_passant_holds(s.model()),
    ensures
        forall|k: int| 0 <= k < s.spec_reachable_moves().len() ==> {
            let m = #[trigger] s.spec_reachable_moves()[k];
            m.spec_to() != s.white_king() && m.spec_to() != s.black_king() ==> s.can_do_move(m) && !s.rook_on_king_target(m)
                && attack_situation_ready(s.model().after(m).cells, s.model().after(m).turn_by, m, s.model().after(m).turn_by)
                && castling_rights_hold(s.model().after(m)) && en_passant_holds(s.model().after(m))
        },
{
    let m = s.model();
    lemma_board_len(s.board);
    lemma_figures_of_color_entries(m.cells, m.turn_by);
    lemma_figures_makeable(m, figures_of_color(m.cells, m.turn_by));
    assert forall|k: int| 0 <= k < s.spec_reachable_moves().len() implies {
        let mv = #[trigger] s.spec_reachable_moves()[k];
        mv.spec_to() != s.white_king() && mv.spec_to() != s.black_king() ==> s.can_do_move(mv) && !s.rook_on_king_target(mv)
            && attack_situation_ready(s.model().after(mv).cells, s.model().after(mv).turn_by, mv, s.model().after(mv).turn_by)
            && castling_rights_hold(s.model().after(mv)) && en_passant_holds(s.model().after(mv))
    } by {
        assert(makeable(m, m.reachable_moves()[k]));
    }
}

/// The classic start backs its castling rights and has no en-passant field.
pub proof fn lemma_classic_playable()
    ensures
        castling_rights_hold(classic_model()),
        en_passant_holds(classic_model()),
{
    let cells = classic_model().cells;
    assert(cells[0] == crate::game::board::classic_cell(0));
    assert(cells[7] == crate::game::board::classic_cell(7));
    assert(cells[56] == crate::game::board::classic_cell(56));
    assert(cells[63] == crate::game::board::classic_cell(63));
}

/// A state built from an accepted configuration backs its castling rights, and its en-passant
/// field lies in front of a pawn.
pub proof fn lemma_configured_playable(turn_by: Color, en_passant: Option<Position>, figs: Seq<FigureAndPosition>)
    requires
        config_ok(turn_by, en_passant, figs),
    ensures
        castling_rights_hold(configured_model(turn_by, en_passant, figs)),
        en_passant_holds(configured_model(turn_by, en_passant, figs)),
{
    let s = configured_model(turn_by, en_passant, figs);
    if let Some(e) = en_passant {
        let forward = Direction::spec_forward_directions(turn_by).1;
        assert(forward.spec_reverse() == (match turn_by {
            Color::White => Direction::Down,
            Color::Black => Direction::Up,
        }));
    }
}

} // verus!
