use vstd::prelude::*;
use crate::base::{Color, Direction, Position};
use crate::base::a_move::{CastlingType, Move, MoveType};
use crate::base::direction::{all_directions, spec_all_directions};
use crate::figure::{Figure, FigureType};
use crate::figure::functions::check_search::{
    find_attack_from_behind, gives_chess, is_king_in_check, spec_castling_rook_end_pos, spec_find_attack_from_behind,
    spec_gives_chess, spec_is_king_in_check, spec_taken_pawn_pos, Attack,
};
use crate::game::{Board, FieldContent, GameState};
use crate::game::board::{figures_of_color, first_occupied, lemma_board_len, lemma_figures_of_color_entries, lemma_figures_of_color_len, lemma_steps_left, path_free, spec_content_type, steps_left};
use crate::game::game_state::{GameStateModel, king_of};

verus! {

/// How many figures attack the king: none, one (and how), or two.
#[derive(Debug, Copy, Clone, PartialEq, Eq, Structural)]
pub enum AttackerNumber {
    Zero,
    One(Attack),
    Two,
}

impl AttackerNumber {
    pub open spec fn spec_from_two_possibilities(opt_attack1: Option<Attack>, opt_attack2: Option<Attack>) -> AttackerNumber {
        match (opt_attack1, opt_attack2) {
            (None, None) => AttackerNumber::Zero,
            (None, Some(attack2)) => AttackerNumber::One(attack2),
            (Some(attack1), None) => AttackerNumber::One(attack1),
            (Some(_), Some(_)) => AttackerNumber::Two,
        }
    }

    pub fn from_two_possibilities(opt_attack1: Option<Attack>, opt_attack2: Option<Attack>) -> (r: AttackerNumber)
        ensures
            r == Self::spec_from_two_possibilities(opt_attack1, opt_attack2),
    {
        match opt_attack1 {
            None => match opt_attack2 {
                None => AttackerNumber::Zero,
                Some(attack2) => AttackerNumber::One(attack2),
            },
            Some(attack1) => match opt_attack2 {
                None => AttackerNumber::One(attack1),
                Some(_) => AttackerNumber::Two,
            },
        }
    }
}

/// The row the rook of a castling of the side that just moved ends on: the last row when white
/// is to move, the first when black is.
pub open spec fn castling_rook_row(turn_by: Color) -> int {
    if turn_by == Color::White {
        7
    } else {
        0
    }
}

/// The field from which a move just made may give check: for a castling the rook's end field,
/// otherwise the end field of the move.
pub open spec fn checking_field(turn_by: Color, after_move: Move) -> Position {
    match after_move.spec_move_type() {
        MoveType::Castling(castling_type) => spec_castling_rook_end_pos(castling_type, castling_rook_row(turn_by)),
        _ => after_move.spec_to(),
    }
}

/// What the attack situation needs of the board: a figure of the side that just moved stands
/// on the field from which the move may give check.
pub open spec fn attack_situation_ready(cells: Seq<Option<Figure>>, turn_by: Color, after_move: Move, king_color: Color) -> bool {
    cells[checking_field(turn_by, after_move).index as int] matches Some(f) && f.color != king_color
}

/// The attacks on the king after the move: from the moved figure (for a castling, the rook),
/// and from a line the move opened (for an en-passant move also the one the taken pawn opened).
pub open spec fn spec_attack_situation(
    cells: Seq<Option<Figure>>,
    turn_by: Color,
    king_pos: Position,
    king_color: Color,
    after_move: Move,
) -> AttackerNumber {
    match after_move.spec_move_type() {
        MoveType::Castling(_) => match spec_gives_chess(cells, checking_field(turn_by, after_move), king_pos, king_color) {
            Some(attack) => AttackerNumber::One(attack),
            None => AttackerNumber::Zero,
        },
        MoveType::EnPassant => {
            let from_end = spec_gives_chess(cells, after_move.spec_to(), king_pos, king_color);
            let from_behind_start = spec_find_attack_from_behind(cells, after_move.spec_from(), king_pos, king_color);
            match from_end {
                None => AttackerNumber::spec_from_two_possibilities(
                    from_behind_start,
                    spec_find_attack_from_behind(cells, spec_taken_pawn_pos(after_move), king_pos, king_color),
                ),
                Some(_) => AttackerNumber::spec_from_two_possibilities(from_behind_start, from_end),
            }
        },
        _ => AttackerNumber::spec_from_two_possibilities(
            spec_gives_chess(cells, after_move.spec_to(), king_pos, king_color),
            spec_find_attack_from_behind(cells, after_move.spec_from(), king_pos, king_color),
        ),
    }
}

/// Whether the king can step in direction `d` onto a field without a figure of its own where,
/// with the king gone from its field, it is not in check.
pub open spec fn king_escape_at(cells: Seq<Option<Figure>>, king_pos: Position, king_color: Color, d: Direction) -> bool {
    match king_pos.spec_step(d) {
        Some(p) => spec_content_type(cells[p.index as int], king_color) != FieldContent::OwnFigure && !spec_is_king_in_check(
            cells.update(king_pos.index as int, None),
            p,
            king_color,
        ),
        None => false,
    }
}

/// Whether the king can escape in one of the eight directions.
pub open spec fn king_can_escape(cells: Seq<Option<Figure>>, king_pos: Position, king_color: Color) -> bool {
    exists|k: int| 0 <= k < 8 && #[trigger] king_escape_at(cells, king_pos, king_color, spec_all_directions()[k])
}

/// The figure of the king's color that shields the king in direction `d` from an opponent's
/// queen, rook (on a straight line) or knight (on a diagonal) behind it, if there is one.
pub open spec fn bound_in_direction(cells: Seq<Option<Figure>>, king_pos: Position, king_color: Color, d: Direction) -> Option<Position> {
    match first_occupied(cells, king_pos, d) {
        None => None,
        Some(q) => if cells[q.index as int]->0.color != king_color {
            None
        } else {
            match first_occupied(cells, q, d) {
                None => None,
                Some(r) => {
                    let f = cells[r.index as int]->0;
                    if f.color == king_color {
                        None
                    } else if f.fig_type == FigureType::Queen {
                        Some(q)
                    } else if f.fig_type == FigureType::Rook {
                        if d.spec_is_straight() {
                            Some(q)
                        } else {
                            None
                        }
                    } else if f.fig_type == FigureType::Knight {
                        if d.spec_is_diagonal() {
                            Some(q)
                        } else {
                            None
                        }
                    } else {
                        None
                    }
                },
            }
        },
    }
}

/// The shielding figures found in the given directions, in order.
pub open spec fn bound_positions_in(cells: Seq<Option<Figure>>, king_pos: Position, king_color: Color, dirs: Seq<Direction>) -> Seq<Position>
    decreases dirs.len(),
{
    if dirs.len() == 0 {
        Seq::empty()
    } else {
        let rest = bound_positions_in(cells, king_pos, king_color, dirs.drop_last());
        match bound_in_direction(cells, king_pos, king_color, dirs.last()) {
            Some(p) => rest.push(p),
            None => rest,
        }
    }
}

/// Whether the pawn on `pawn_pos` can reach `to_pos`, going the way the side to move goes: one
/// field diagonally onto an opponent's figure or the en-passant field, one field forward onto an
/// empty field, or two from its starting row over empty fields.
pub open spec fn spec_reachable_by_pawn(s: GameStateModel, pawn_pos: Position, to_pos: Position) -> bool {
    let row_step: int = if s.turn_by == Color::White { 1 } else { -1 };
    let column_diff = crate::base::position::abs(pawn_pos.column - to_pos.column);
    if column_diff > 1 {
        false
    } else if column_diff == 1 {
        if to_pos.row - pawn_pos.row != row_step {
            false
        } else if spec_content_type(s.cells[to_pos.index as int], s.turn_by) == FieldContent::OpponentFigure {
            true
        } else {
            s.en_passant == Some(to_pos)
        }
    } else {
        let one_step_forward_row = pawn_pos.row + row_step;
        if to_pos.row == one_step_forward_row {
            s.cells[to_pos.index as int] is None
        } else {
            let two_steps_forward_row = one_step_forward_row + row_step;
            let start_row: int = if s.turn_by == Color::White { 1 } else { 6 };
            &&& to_pos.row == two_steps_forward_row
            &&& pawn_pos.row == start_row
            &&& s.cells[to_pos.index as int] is None
            &&& s.cells[Position::spec_at(pawn_pos.column as int, one_step_forward_row).index as int] is None
        }
    }
}

/// Whether a figure of the given type (not a king) on `fig_pos` can reach `to_pos`.
pub open spec fn spec_is_reachable(s: GameStateModel, fig_type: FigureType, fig_pos: Position, to_pos: Position) -> bool {
    match fig_type {
        FigureType::Pawn => spec_reachable_by_pawn(s, fig_pos, to_pos),
        FigureType::Rook => match fig_pos.spec_get_direction(to_pos) {
            Some(d) => d.spec_is_straight() && path_free(s.cells, fig_pos, d, to_pos),
            None => false,
        },
        FigureType::Knight => fig_pos.spec_is_reachable_by_knight(to_pos),
        FigureType::Bishop => match fig_pos.spec_get_direction(to_pos) {
            Some(d) => d.spec_is_diagonal() && path_free(s.cells, fig_pos, d, to_pos),
            None => false,
        },
        FigureType::Queen => match fig_pos.spec_get_direction(to_pos) {
            Some(d) => path_free(s.cells, fig_pos, d, to_pos),
            None => false,
        },
        FigureType::King => false,
    }
}

/// Whether the figure can reach one of the (at most `count`) fields from `pos` on in direction `d`.
pub open spec fn intercepts_on_line(s: GameStateModel, fig_type: FigureType, fig_pos: Position, pos: Position, d: Direction, count: nat) -> bool
    decreases count,
{
    if count == 0 {
        false
    } else {
        match pos.spec_step(d) {
            None => false,
            Some(q) => spec_is_reachable(s, fig_type, fig_pos, q) || intercepts_on_line(
                s,
                fig_type,
                fig_pos,
                q,
                d,
                (count - 1) as nat,
            ),
        }
    }
}

/// Whether a defender can take the attacker, or step between it and the king.
pub open spec fn spec_can_intercept(s: GameStateModel, attack: Attack, defender_type: FigureType, defender_pos: Position, king_pos: Position) -> bool {
    match attack {
        Attack::ByPawn(pawn_pos) => spec_is_reachable(s, defender_type, defender_pos, pawn_pos),
        Attack::ByKnight(knight_pos) => spec_is_reachable(s, defender_type, defender_pos, knight_pos),
        Attack::OnLine(direction, number_of_pos) => intercepts_on_line(
            s,
            defender_type,
            defender_pos,
            king_pos,
            direction,
            number_of_pos as nat,
        ),
    }
}

/// Whether the figure, other than the king and not shielding it, can intercept the attack.
pub open spec fn defender_intercepts(s: GameStateModel, attack: Attack, king_pos: Position, bound: Seq<Position>, defender: (Figure, Position)) -> bool {
    &&& defender.1 != king_pos
    &&& !bound.contains(defender.1)
    &&& spec_can_intercept(s, attack, defender.0.fig_type, defender.1, king_pos)
}

/// A king under a single attack is mate when it cannot escape and none of its figures that does
/// not shield it can intercept the attack.
pub open spec fn spec_checkmate_from_attack(s: GameStateModel, attack: Attack, king_pos: Position, king_color: Color) -> bool {
    let defenders = figures_of_color(s.cells, king_color);
    let bound = bound_positions_in(s.cells, king_pos, king_color, spec_all_directions());
    &&& !king_can_escape(s.cells, king_pos, king_color)
    &&& !(exists|k: int| 0 <= k < defenders.len() && #[trigger] defender_intercepts(s, attack, king_pos, bound, defenders[k]))
}

/// Whether the king of the side to move is mate after the move: with no attacker it is not, with
/// one it is as `spec_checkmate_from_attack` says, and with two exactly when it can escape.
pub open spec fn spec_is_active_king_checkmate(s: GameStateModel, king_pos: Position, king_color: Color, after_move: Move) -> bool {
    match spec_attack_situation(s.cells, s.turn_by, king_pos, king_color, after_move) {
        AttackerNumber::Zero => false,
        AttackerNumber::One(attack) => spec_checkmate_from_attack(s, attack, king_pos, king_color),
        AttackerNumber::Two => king_can_escape(s.cells, king_pos, king_color),
    }
}

/// The fields an attack names lie on the board.
pub open spec fn attack_wf(attack: Attack) -> bool {
    match attack {
        Attack::ByPawn(p) => p.wf(),
        Attack::ByKnight(p) => p.wf(),
        Attack::OnLine(_, _) => true,
    }
}

/// Whether the attack situation can be determined: see `attack_situation_ready`.
pub fn is_attack_situation_ready(board: &Board, turn_by: Color, after_move: Move, king_color: Color) -> (r: bool)
    ensures
        r == attack_situation_ready(board@, turn_by, after_move, king_color),
{
    let pos = checking_field_of(turn_by, after_move);
    match board.get_figure(pos) {
        Some(f) => f.color != king_color,
        None => false,
    }
}

fn checking_field_of(turn_by: Color, after_move: Move) -> (r: Position)
    ensures
        r == checking_field(turn_by, after_move),
        r.wf(),
{
    match after_move.move_type() {
        MoveType::Castling(castling_type) => {
            let rook_row: i8 = if turn_by == Color::White {
                7
            } else {
                0
            };
            if castling_type == CastlingType::KingSide {
                Position::new_unchecked(5, rook_row)
            } else {
                Position::new_unchecked(3, rook_row)
            }
        },
        _ => after_move.to(),
    }
}

/**
 * it's assumed that the passive king isn't in check at this point (because then the game should already by over).
 */
pub fn is_active_king_checkmate(king_pos: Position, king_color: Color, game_state: &GameState, after_move: Move) -> (r: bool)
    requires
        game_state.wf(),
        game_state.side_fits(king_color),
        game_state.kings_unique(),
        king_pos == game_state.model().king_pos_of(king_color),
        attack_situation_ready(game_state.board@, game_state.turn_by, after_move, king_color),
    ensures
        r == spec_is_active_king_checkmate(game_state.model(), king_pos, king_color, after_move),
{
    let attack_situation = get_attack_situation(king_pos, king_color, game_state, after_move);
    match attack_situation {
        AttackerNumber::Zero => false,
        AttackerNumber::One(attack) => is_active_king_checkmate_from_attack(attack, king_pos, king_color, game_state),
        AttackerNumber::Two => can_king_move_without_being_in_check(king_pos, king_color, &game_state.board),
    }
}

pub fn get_attack_situation(king_pos: Position, king_color: Color, game_state: &GameState, after_move: Move) -> (r: AttackerNumber)
    requires
        king_pos.wf(),
        attack_situation_ready(game_state.board@, game_state.turn_by, after_move, king_color),
    ensures
        r matches AttackerNumber::One(attack) ==> attack_wf(attack),
        r == spec_attack_situation(game_state.board@, game_state.turn_by, king_pos, king_color, after_move),
{
    let board = &game_state.board;
    match after_move.move_type() {
        MoveType::Castling(_) => {
            let castling_rook_end_pos = checking_field_of(game_state.turn_by, after_move);
            if let Some(attack) = gives_chess(castling_rook_end_pos, king_pos, king_color, board) {
                AttackerNumber::One(attack)
            } else {
                AttackerNumber::Zero
            }
        },
        MoveType::EnPassant => {
            let is_check_from_end_pos = gives_chess(after_move.to(), king_pos, king_color, board);
            let is_check_from_behind_start_pos = find_attack_from_behind(after_move.from(), king_pos, king_color, board);
            match is_check_from_end_pos {
                None => {
                    let to = after_move.to();
                    let from = after_move.from();
                    let taken_pawn_pos: Position = Position::new_unchecked(to.column, from.row);
                    let is_check_from_behind_taken_pawn = find_attack_from_behind(taken_pawn_pos, king_pos, king_color, board);
                    AttackerNumber::from_two_possibilities(is_check_from_behind_start_pos, is_check_from_behind_taken_pawn)
                },
                Some(_) => AttackerNumber::from_two_possibilities(is_check_from_behind_start_pos, is_check_from_end_pos),
            }
        },
        _ => {
            let is_check_from_end_pos = gives_chess(after_move.to(), king_pos, king_color, board);
            let is_check_from_behind_start_pos = find_attack_from_behind(after_move.from(), king_pos, king_color, board);
            AttackerNumber::from_two_possibilities(is_check_from_end_pos, is_check_from_behind_start_pos)
        },
    }
}

fn is_active_king_checkmate_from_attack(attack: Attack, king_pos: Position, king_color: Color, game_state: &GameState) -> (r: bool)
    requires
        attack_wf(attack),
        game_state.wf(),
        game_state.side_fits(king_color),
        game_state.kings_unique(),
        king_pos == game_state.model().king_pos_of(king_color),
    ensures
        r == spec_checkmate_from_attack(game_state.model(), attack, king_pos, king_color),
{
    let ghost s = game_state.model();
    let ghost cells = game_state.board@;
    let ghost defenders = figures_of_color(cells, king_color);
    proof {
        lemma_board_len(game_state.board);
        lemma_figures_of_color_len(cells, king_color);
        lemma_figures_of_color_entries(cells, king_color);
    }
    if can_king_move_without_being_in_check(king_pos, king_color, &game_state.board) {
        return false;
    }
    let bound_positions = get_bound_positions(king_pos, king_color, &game_state.board);
    let ghost bound = bound_positions@;
    let figures = game_state.board.get_all_figures_of_color(king_color);
    let mut i: usize = 0;
    while i < 16
        invariant
            s == game_state.model(),
            cells == game_state.board@,
            cells.len() == 64,
            game_state.wf(),
            game_state.kings_unique(),
            king_pos == s.king_pos_of(king_color),
            defenders == figures_of_color(cells, king_color),
            defenders.len() <= 16,
            i <= defenders.len(),
            bound == bound_positions@,
            bound == bound_positions_in(cells, king_pos, king_color, spec_all_directions()),
            forall|k: int| 0 <= k < 16 ==> #[trigger] figures@[k] == (if k < defenders.len() {
                Some(defenders[k])
            } else {
                None
            }),
            forall|k: int| 0 <= k < defenders.len() ==> {
                let (f, p) = #[trigger] defenders[k];
                &&& p.wf()
                &&& cells[p.index as int] == Some(f)
                &&& f.color == king_color
            },
            attack_wf(attack),
            forall|k: int| 0 <= k < i ==> !(#[trigger] defender_intercepts(s, attack, king_pos, bound, defenders[k])),
        ensures
            forall|k: int| 0 <= k < defenders.len() ==> !(#[trigger] defender_intercepts(s, attack, king_pos, bound, defenders[k])),
        decreases 16 - i,
    {
        match figures[i] {
            Some((defender, defender_pos)) => {
                assert(defenders[i as int] == (defender, defender_pos));
                if defender_pos == king_pos || array_vec_contains(&bound_positions, defender_pos) {
                } else {
                    proof {
                        // the only king of this color stands on `king_pos`
                        if defender.fig_type == FigureType::King {
                            crate::game::game_state::lemma_unique_king(
                                cells,
                                defender_pos.index as int,
                                king_pos.index as int,
                                king_color,
                            );
                            crate::base::position::lemma_position_eq_by_index(defender_pos, king_pos);
                        }
                    }
                    if can_intercept(attack, defender.fig_type, defender_pos, king_pos, game_state) {
                        assert(defender_intercepts(s, attack, king_pos, bound, defenders[i as int]));
                        return false;
                    }
                }
            },
            None => {
                break;
            },
        }
        i = i + 1;
    }
    true
}

fn can_intercept(attack: Attack, defender_type: FigureType, defender_pos: Position, king_pos: Position, game_state: &GameState) -> (r: bool)
    requires
        attack_wf(attack),
        defender_type != FigureType::King,
        defender_pos.wf(),
        king_pos.wf(),
    ensures
        r == spec_can_intercept(game_state.model(), attack, defender_type, defender_pos, king_pos),
{
    match attack {
        Attack::ByPawn(pawn_pos) => is_reachable(defender_type, defender_pos, pawn_pos, game_state),
        Attack::ByKnight(knight_pos) => is_reachable(defender_type, defender_pos, knight_pos, game_state),
        Attack::OnLine(direction, number_of_pos) => {
            let mut counter = number_of_pos;
            let mut intercept_pos = king_pos;
            while counter > 0
                invariant
                    intercept_pos.wf(),
                    defender_pos.wf(),
                    defender_type != FigureType::King,
                    spec_can_intercept(game_state.model(), attack, defender_type, defender_pos, king_pos)
                        == intercepts_on_line(game_state.model(), defender_type, defender_pos, intercept_pos, direction, counter as nat),
                decreases counter,
            {
                intercept_pos = match intercept_pos.step(direction) {
                    Some(p) => p,
                    None => {
                        return false;
                    },
                };
                if is_reachable(defender_type, defender_pos, intercept_pos, game_state) {
                    return true;
                }
                counter = counter - 1;
            }
            false
        },
    }
}

/// The fields of the figures that shield the king from an attack behind them, held in a
/// `tinyvec::ArrayVec` of at most eight positions.
#[verifier::external_body]
pub struct BoundPositions {
    inner: tinyvec::ArrayVec<[Position; 8]>,
}

/// The fields a `BoundPositions` holds, in order.
pub uninterp spec fn bound_positions_content(positions: BoundPositions) -> Seq<Position>;

impl View for BoundPositions {
    type V = Seq<Position>;

    open spec fn view(&self) -> Seq<Position> {
        bound_positions_content(*self)
    }
}

/// `ArrayVec::default`: an empty array vec.
#[verifier::external_body]
fn array_vec_default() -> (r: BoundPositions)
    ensures
        bound_positions_content(r) == Seq::<Position>::empty(),
{
    BoundPositions { inner: tinyvec::ArrayVec::default() }
}

/// `ArrayVec::push`: places an element onto the end; it panics when the array is full, so
/// there must be room.
#[verifier::external_body]
fn array_vec_push(positions: &mut BoundPositions, p: Position)
    requires
        bound_positions_content(*old(positions)).len() < 8,
    ensures
        bound_positions_content(*final(positions)) == bound_positions_content(*old(positions)).push(p),
{
    positions.inner.push(p)
}

/// `<[T]>::contains` on the slice of an `ArrayVec`: whether an element equals `p` (`Position`
/// compares its fields).
#[verifier::external_body]
fn array_vec_contains(positions: &BoundPositions, p: Position) -> (r: bool)
    ensures
        r == bound_positions_content(*positions).contains(p),
{
    positions.inner.contains(&p)
}

fn get_bound_positions(king_pos: Position, king_color: Color, board: &Board) -> (r: BoundPositions)
    requires
        king_pos.wf(),
    ensures
        r@ == bound_positions_in(board@, king_pos, king_color, spec_all_directions()),
{
    let directions = all_directions();
    let mut bound_positions = array_vec_default();
    let mut i: usize = 0;
    assert(directions@.take(0) =~= Seq::<Direction>::empty());
    while i < 8
        invariant
            king_pos.wf(),
            i <= 8,
            directions@ == spec_all_directions(),
            bound_positions_content(bound_positions).len() <= i,
            bound_positions_content(bound_positions) == bound_positions_in(
                board@,
                king_pos,
                king_color,
                directions@.take(i as int),
            ),
        decreases 8 - i,
    {
        let direction = directions[i];
        assert(directions@.take(i + 1).drop_last() =~= directions@.take(i as int));
        assert(directions@.take(i + 1).last() == direction);
        if let Some(bound_pos) = contains_bound_figure(direction, king_pos, king_color, board) {
            array_vec_push(&mut bound_positions, bound_pos);
        }
        i = i + 1;
    }
    assert(directions@.take(8) =~= spec_all_directions());
    bound_positions
}

fn contains_bound_figure(direction: Direction, king_pos: Position, king_color: Color, board: &Board) -> (r: Option<Position>)
    requires
        king_pos.wf(),
    ensures
        r == bound_in_direction(board@, king_pos, king_color, direction),
{
    let ghost cells = board@;
    let mut opt_bound_position: Option<Position> = None;
    let mut pos = king_pos;
    loop
        invariant
            pos.wf(),
            king_pos.wf(),
            cells == board@,
            match opt_bound_position {
                None => first_occupied(cells, king_pos, direction) == first_occupied(cells, pos, direction),
                Some(q) => {
                    &&& first_occupied(cells, king_pos, direction) == Some(q)
                    &&& q.wf()
                    &&& cells[q.index as int] matches Some(f) && f.color == king_color
                    &&& first_occupied(cells, q, direction) == first_occupied(cells, pos, direction)
                },
            },
        decreases steps_left(pos, direction),
    {
        proof {
            lemma_steps_left(pos, direction);
        }
        pos = match pos.step(direction) {
            None => {
                return None;
            },
            Some(new_pos) => new_pos,
        };
        if let Some(figure) = board.get_figure(pos) {
            if figure.color == king_color {
                if opt_bound_position.is_none() {
                    opt_bound_position = Some(pos);
                } else {
                    return None;
                }
            } else {
                return match opt_bound_position {
                    None => None,
                    Some(maybe_bound_pos) => match figure.fig_type {
                        FigureType::Queen => Some(maybe_bound_pos),
                        FigureType::Rook => if direction.is_straight() {
                            Some(maybe_bound_pos)
                        } else {
                            None
                        },
                        FigureType::Knight => if direction.is_diagonal() {
                            Some(maybe_bound_pos)
                        } else {
                            None
                        },
                        _ => None,
                    },
                };
            }
        }
    }
}

fn can_king_move_without_being_in_check(king_pos: Position, king_color: Color, board: &Board) -> (r: bool)
    requires
        king_pos.wf(),
        board@[king_pos.index as int] is Some,
    ensures
        r == king_can_escape(board@, king_pos, king_color),
{
    let ghost cells = board@;
    let board_without_king = {
        let mut cloned_board = board.clone();
        cloned_board.clear_field(king_pos);
        cloned_board
    };
    let directions = all_directions();
    let mut i: usize = 0;
    while i < 8
        invariant
            king_pos.wf(),
            i <= 8,
            cells == board@,
            directions@ == spec_all_directions(),
            board_without_king@ == cells.update(king_pos.index as int, None),
            forall|k: int| 0 <= k < i ==> !#[trigger] king_escape_at(cells, king_pos, king_color, spec_all_directions()[k]),
        decreases 8 - i,
    {
        if let Some(new_king_pos) = king_pos.step(directions[i]) {
            let field_content = board.get_content_type(new_king_pos, king_color);
            if field_content != FieldContent::OwnFigure && !is_king_in_check(new_king_pos, king_color, &board_without_king) {
                assert(king_escape_at(cells, king_pos, king_color, spec_all_directions()[i as int]));
                return true;
            }
        }
        i = i + 1;
    }
    false
}

/**
 * it is guaranteed that to_pos is either free or a figure of opposite color
 */
fn is_reachable(fig_type: FigureType, fig_pos: Position, to_pos: Position, game_state: &GameState) -> (r: bool)
    requires
        fig_type != FigureType::King,
        fig_pos.wf(),
        to_pos.wf(),
    ensures
        r == spec_is_reachable(game_state.model(), fig_type, fig_pos, to_pos),
{
    match fig_type {
        FigureType::Pawn => is_reachable_by_pawn(fig_pos, to_pos, game_state),
        FigureType::Rook => is_reachable_by_rook(fig_pos, to_pos, &game_state.board),
        FigureType::Knight => is_reachable_by_knight(fig_pos, to_pos),
        FigureType::Bishop => is_reachable_by_bishop(fig_pos, to_pos, &game_state.board),
        FigureType::Queen => is_reachable_by_queen(fig_pos, to_pos, &game_state.board),
        FigureType::King => false,
    }
}

fn is_reachable_by_pawn(pawn_pos: Position, to_pos: Position, game_state: &GameState) -> (r: bool)
    requires
        pawn_pos.wf(),
        to_pos.wf(),
    ensures
        r == spec_reachable_by_pawn(game_state.model(), pawn_pos, to_pos),
{
    let pawn_is_white = game_state.turn_by == Color::White;
    let row_step: i8 = if pawn_is_white {
        1
    } else {
        -1
    };
    let column_diff = if pawn_pos.column >= to_pos.column {
        pawn_pos.column - to_pos.column
    } else {
        to_pos.column - pawn_pos.column
    };
    if column_diff > 1 {
        return false;
    }
    if column_diff == 1 {
        if (to_pos.row - pawn_pos.row) != row_step {
            return false;
        }
        if game_state.board.get_content_type(to_pos, game_state.turn_by) == FieldContent::OpponentFigure {
            return true;
        }
        if let Some(en_passant_pos) = game_state.en_passant_intercept_pos {
            to_pos == en_passant_pos
        } else {
            false
        }
    } else {
        let one_step_forward_row = pawn_pos.row + row_step;
        if to_pos.row == one_step_forward_row {
            game_state.board.is_empty(to_pos)
        } else {
            let two_steps_forward_row = one_step_forward_row + row_step;
            let start_row: i8 = if pawn_is_white {
                1
            } else {
                6
            };
            to_pos.row == two_steps_forward_row && pawn_pos.row == start_row && game_state.board.is_empty(to_pos)
                && game_state.board.is_empty(Position::new_unchecked(pawn_pos.column, one_step_forward_row))
        }
    }
}

fn is_reachable_by_rook(rook_pos: Position, to_pos: Position, board: &Board) -> (r: bool)
    requires
        rook_pos.wf(),
        to_pos.wf(),
    ensures
        r == match rook_pos.spec_get_direction(to_pos) {
            Some(d) => d.spec_is_straight() && path_free(board@, rook_pos, d, to_pos),
            None => false,
        },
{
    if let Some(direction) = rook_pos.get_direction(to_pos) {
        direction.is_straight() && board.are_intermediate_pos_free(rook_pos, direction, to_pos)
    } else {
        false
    }
}

fn is_reachable_by_knight(knight_pos: Position, to_pos: Position) -> (r: bool)
    requires
        knight_pos.wf(),
        to_pos.wf(),
    ensures
        r == knight_pos.spec_is_reachable_by_knight(to_pos),
{
    knight_pos.is_reachable_by_knight(to_pos)
}

fn is_reachable_by_bishop(bishop_pos: Position, to_pos: Position, board: &Board) -> (r: bool)
    requires
        bishop_pos.wf(),
        to_pos.wf(),
    ensures
        r == match bishop_pos.spec_get_direction(to_pos) {
            Some(d) => d.spec_is_diagonal() && path_free(board@, bishop_pos, d, to_pos),
            None => false,
        },
{
    if let Some(direction) = bishop_pos.get_direction(to_pos) {
        direction.is_diagonal() && board.are_intermediate_pos_free(bishop_pos, direction, to_pos)
    } else {
        false
    }
}

fn is_reachable_by_queen(queen_pos: Position, to_pos: Position, board: &Board) -> (r: bool)
    requires
        queen_pos.wf(),
        to_pos.wf(),
    ensures
        r == match queen_pos.spec_get_direction(to_pos) {
            Some(d) => path_free(board@, queen_pos, d, to_pos),
            None => false,
        },
{
    if let Some(direction) = queen_pos.get_direction(to_pos) {
        board.are_intermediate_pos_free(queen_pos, direction, to_pos)
    } else {
        false
    }
}

} // verus!
