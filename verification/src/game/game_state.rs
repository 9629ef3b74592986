use vstd::prelude::*;
use crate::base::{ChessError, Color, Deactivatable, Direction, ErrorKind, Position};
use crate::base::errors::chess_error;
use crate::base::a_move::{CastlingType, Move, MoveType, PromotionType};
use crate::figure::{Figure, FigureAndPosition, FigureType};
use crate::figure::functions::check_search::{is_king_in_check, spec_is_king_in_check};
use crate::game::Board;
use crate::base::a_move::Moves;
use crate::figure::functions::count_reachable::{count_reachable_moves, spec_count_reachable_moves};
use crate::figure::functions::reachable::{for_reachable_moves, spec_reachable_moves_of};
use crate::game::board::{lemma_count_toggled, lemma_toggle_index, toggle_index, toggled_cell, toggled_cells, figures_of_color, lemma_figures_of_color_entries, lemma_figures_of_color_len, count_where, lemma_board_len, lemma_count_update, of_color, of_kind, spec_classic_cells};
use crate::base::position::lemma_position_eq_by_index;

verus! {

/// What a move did besides moving: whether it took a figure and whether it moved a pawn.
#[derive(Debug, Copy, Clone, PartialEq, Eq, Structural)]
pub struct MoveStats {
    pub did_catch_figure: bool,
    pub did_move_pawn: bool,
}

impl Default for MoveStats {
    fn default() -> (r: MoveStats)
        ensures
            r == (MoveStats { did_catch_figure: false, did_move_pawn: false }),
    {
        MoveStats { did_catch_figure: false, did_move_pawn: false }
    }
}

pub open spec fn white_king_starting_pos() -> Position {
    Position::spec_at(4, 0)
}

pub open spec fn black_king_starting_pos() -> Position {
    Position::spec_at(4, 7)
}

pub open spec fn white_queen_side_rook_starting_pos() -> Position {
    Position::spec_at(0, 0)
}

pub open spec fn white_king_side_rook_starting_pos() -> Position {
    Position::spec_at(7, 0)
}

pub open spec fn black_queen_side_rook_starting_pos() -> Position {
    Position::spec_at(0, 7)
}

pub open spec fn black_king_side_rook_starting_pos() -> Position {
    Position::spec_at(7, 7)
}

/// The field the white king starts on (e1).
pub fn white_king_starting_position() -> (r: Position)
    ensures
        r == white_king_starting_pos(),
        r.wf(),
{
    Position::new_unchecked(4, 0)
}

/// The field the black king starts on (e8).
pub fn black_king_starting_position() -> (r: Position)
    ensures
        r == black_king_starting_pos(),
        r.wf(),
{
    Position::new_unchecked(4, 7)
}

/// The state a classic game starts in.
pub open spec fn classic_model() -> GameStateModel {
    GameStateModel {
        cells: spec_classic_cells(),
        turn_by: Color::White,
        white_king: white_king_starting_pos(),
        black_king: black_king_starting_pos(),
        en_passant: None,
        white_queen_side: true,
        white_king_side: true,
        black_queen_side: true,
        black_king_side: true,
    }
}

/// The position of a game between two moves: the board, whose turn it is, where the kings
/// stand, the field a pawn can be taken en-passant on, and which castlings are still possible.
#[derive(Debug)]
pub struct GameState {
    pub board: Board,
    pub turn_by: Color,
    pub white_king_pos: Position,
    pub black_king_pos: Position,
    pub en_passant_intercept_pos: Option<Position>,
    pub is_white_queen_side_castling_still_possible: Deactivatable,
    pub is_white_king_side_castling_still_possible: Deactivatable,
    pub is_black_queen_side_castling_still_possible: Deactivatable,
    pub is_black_king_side_castling_still_possible: Deactivatable,
}

/// The figure standing on `pos`, if any.
pub open spec fn cell_at(cells: Seq<Option<Figure>>, pos: Position) -> Option<Figure> {
    cells[pos.index as int]
}

pub open spec fn king_of(color: Color) -> Figure {
    Figure { fig_type: FigureType::King, color }
}

impl GameState {
    pub open spec fn white_king(self) -> Position {
        self.white_king_pos
    }

    pub open spec fn black_king(self) -> Position {
        self.black_king_pos
    }

    pub open spec fn king_pos_of(self, color: Color) -> Position {
        match color {
            Color::White => self.white_king(),
            Color::Black => self.black_king(),
        }
    }

    pub open spec fn active_king(self) -> Position {
        self.king_pos_of(self.turn_by)
    }

    pub open spec fn passive_king(self) -> Position {
        self.king_pos_of(self.turn_by.spec_toggle())
    }

    /// A game state is well formed when both kings stand where it says and the en-passant
    /// field lies on the board.
    pub open spec fn wf(self) -> bool {
        &&& self.white_king().wf()
        &&& self.black_king().wf()
        &&& cell_at(self.board@, self.white_king()) == Some(king_of(Color::White))
        &&& cell_at(self.board@, self.black_king()) == Some(king_of(Color::Black))
        &&& (self.en_passant_intercept_pos matches Some(p) ==> p.wf())
    }

    /// The side of `color` has at most sixteen figures: the lists of a side's figures hold
    /// sixteen entries.
    pub open spec fn side_fits(self, color: Color) -> bool {
        count_where(self.board@, of_color(color)) <= 16
    }

    /// Both sides have at most sixteen figures.
    pub open spec fn figures_fit(self) -> bool {
        self.side_fits(Color::White) && self.side_fits(Color::Black)
    }

    pub fn classic() -> (r: GameState)
        ensures
            r.wf(),
            r.kings_unique(),
            r.model() == classic_model(),
            r.board@ == spec_classic_cells(),
            r.turn_by == Color::White,
            r.white_king() == white_king_starting_pos(),
            r.black_king() == black_king_starting_pos(),
            r.en_passant_intercept_pos is None,
            r.is_white_queen_side_castling_still_possible.spec_value(),
            r.is_white_king_side_castling_still_possible.spec_value(),
            r.is_black_queen_side_castling_still_possible.spec_value(),
            r.is_black_king_side_castling_still_possible.spec_value(),
    {
        let board = Board::classic();
        proof {
            crate::game::board::lemma_classic_color_counts();
            crate::game::board::lemma_classic_king_counts();
        }
        GameState {
            board,
            turn_by: Color::White,
            white_king_pos: white_king_starting_position(),
            black_king_pos: black_king_starting_position(),
            en_passant_intercept_pos: None,
            is_white_queen_side_castling_still_possible: Deactivatable::new(true),
            is_white_king_side_castling_still_possible: Deactivatable::new(true),
            is_black_queen_side_castling_still_possible: Deactivatable::new(true),
            is_black_king_side_castling_still_possible: Deactivatable::new(true),
        }
    }

    pub fn get_passive_king_pos(&self) -> (r: Position)
        ensures
            r == self.passive_king(),
    {
        match self.turn_by {
            Color::Black => self.white_king_pos,
            Color::White => self.black_king_pos,
        }
    }

    pub fn get_passive_kings_pos(&self) -> (r: Position)
        ensures
            r == self.passive_king(),
    {
        self.get_passive_king_pos()
    }

    pub fn get_active_king(&self) -> (r: Position)
        ensures
            r == self.active_king(),
    {
        match self.turn_by {
            Color::White => self.white_king_pos,
            Color::Black => self.black_king_pos,
        }
    }

    pub fn is_active_king_in_check(&self) -> (r: bool)
        requires
            self.wf(),
        ensures
            r == spec_is_king_in_check(self.board@, self.active_king(), self.turn_by),
    {
        let king_pos = self.get_active_king();
        is_king_in_check(king_pos, self.turn_by, &self.board)
    }
}

impl Clone for GameState {
    fn clone(&self) -> (r: GameState)
        ensures
            r.board@ == self.board@,
            r.turn_by == self.turn_by,
            r.white_king() == self.white_king(),
            r.black_king() == self.black_king(),
            r.en_passant_intercept_pos == self.en_passant_intercept_pos,
            r.is_white_queen_side_castling_still_possible == self.is_white_queen_side_castling_still_possible,
            r.is_white_king_side_castling_still_possible == self.is_white_king_side_castling_still_possible,
            r.is_black_queen_side_castling_still_possible == self.is_black_queen_side_castling_still_possible,
            r.is_black_king_side_castling_still_possible == self.is_black_king_side_castling_still_possible,
    {
        GameState {
            board: self.board.clone(),
            turn_by: self.turn_by,
            white_king_pos: self.white_king_pos,
            black_king_pos: self.black_king_pos,
            en_passant_intercept_pos: self.en_passant_intercept_pos,
            is_white_queen_side_castling_still_possible: self.is_white_queen_side_castling_still_possible,
            is_white_king_side_castling_still_possible: self.is_white_king_side_castling_still_possible,
            is_black_queen_side_castling_still_possible: self.is_black_queen_side_castling_still_possible,
            is_black_king_side_castling_still_possible: self.is_black_king_side_castling_still_possible,
        }
    }
}


/// The cells after the figure on `a` moved to `b`.
pub open spec fn normal_cells(cells: Seq<Option<Figure>>, a: Position, b: Position) -> Seq<Option<Figure>> {
    cells.update(a.index as int, None).update(b.index as int, cells[a.index as int])
}

pub open spec fn is_king_of(o: Option<Figure>) -> bool {
    o matches Some(f) && f.fig_type == FigureType::King
}

/// Moving a figure from `a` to `b` changes a count (of something no empty field has) only by
/// what stood on `b`.
pub proof fn lemma_normal_move_count(cells: Seq<Option<Figure>>, a: Position, b: Position, f: spec_fn(Option<Figure>) -> bool)
    requires
        a.wf(),
        b.wf(),
        cells.len() == 64,
        !f(None),
    ensures
        count_where(normal_cells(cells, a, b), f) == count_where(cells, f) - (if a != b && f(cells[b.index as int]) {
            1int
        } else {
            0int
        }),
{
    let s1 = cells.update(a.index as int, None);
    lemma_count_update(cells, a.index as int, None, f);
    lemma_count_update(s1, b.index as int, cells[a.index as int], f);
    crate::base::position::lemma_position_eq_by_index(a, b);
}

/// A field holds a king of a color exactly when it is the only such field.
pub proof fn lemma_unique_king(cells: Seq<Option<Figure>>, a: int, b: int, color: Color)
    requires
        0 <= a < cells.len(),
        0 <= b < cells.len(),
        count_where(cells, crate::game::board::of_kind(FigureType::King, color)) == 1,
        cells[a] == Some(king_of(color)),
        cells[b] == Some(king_of(color)),
    ensures
        a == b,
{
    let f = crate::game::board::of_kind(FigureType::King, color);
    if a != b {
        lemma_count_update(cells, a, None, f);
        let s1 = cells.update(a, None);
        crate::game::board::lemma_count_positive(s1, f);
        assert(f(s1[b]));
    }
}

/// What a game state says, as mathematical values: the cells of the board, whose turn it is,
/// where the kings stand, the en-passant field and the four castling rights.
pub struct GameStateModel {
    pub cells: Seq<Option<Figure>>,
    pub turn_by: Color,
    pub white_king: Position,
    pub black_king: Position,
    pub en_passant: Option<Position>,
    pub white_queen_side: bool,
    pub white_king_side: bool,
    pub black_queen_side: bool,
    pub black_king_side: bool,
}

impl GameStateModel {
    pub open spec fn king_pos_of(self, color: Color) -> Position {
        match color {
            Color::White => self.white_king,
            Color::Black => self.black_king,
        }
    }

    /// Where the king of the side that just moved stands.
    pub open spec fn passive_king(self) -> Position {
        self.king_pos_of(self.turn_by.spec_toggle())
    }

    /// Where the king of the side to move stands.
    pub open spec fn active_king(self) -> Position {
        self.king_pos_of(self.turn_by)
    }

    /// Each side has exactly one king.
    pub open spec fn kings_unique(self) -> bool {
        &&& count_where(self.cells, crate::game::board::of_kind(FigureType::King, Color::White)) == 1
        &&& count_where(self.cells, crate::game::board::of_kind(FigureType::King, Color::Black)) == 1
    }

    pub open spec fn moving_figure(self, m: Move) -> Figure {
        cell_at(self.cells, m.spec_from())->0
    }

    /// A castling move: a king moving with a castling move type, or a king moving onto a figure
    /// of the side to move.
    pub open spec fn is_castling(self, m: Move) -> bool {
        &&& self.moving_figure(m).fig_type == FigureType::King
        &&& (m.spec_move_type() is Castling || (cell_at(self.cells, m.spec_to()) matches Some(f) && f.color == self.turn_by))
    }


    pub open spec fn is_double_step(self, m: Move) -> bool {
        self.moving_figure(m).fig_type == FigureType::Pawn && crate::base::position::abs(
            m.spec_from().row - m.spec_to().row,
        ) == 2
    }

    /// A pawn taking en-passant: marked as such, or moving onto the en-passant field.
    pub open spec fn is_en_passant(self, m: Move) -> bool {
        &&& self.moving_figure(m).fig_type == FigureType::Pawn
        &&& !self.is_double_step(m)
        &&& (m.spec_move_type() == MoveType::EnPassant || self.en_passant == Some(m.spec_to()))
    }

    pub open spec fn promotion(self, m: Move) -> Option<PromotionType> {
        if self.moving_figure(m).fig_type == FigureType::Pawn && !self.is_double_step(m) && !self.is_en_passant(m) {
            match m.spec_move_type() {
                MoveType::PawnPromotion(pt) => Some(pt),
                _ => None,
            }
        } else {
            None
        }
    }


    /// What `do_move` needs: a figure on the start field, no king on the end field, and for a
    /// castling a figure other than a king on the rook's field and no king where king and rook
    /// go, for an en-passant move no king on the field of the taken pawn.
    pub open spec fn can_do_move(self, m: Move) -> bool {
        let cells = self.cells;
        let (king_to, rook_from, rook_to) = GameState::castling_fields(m);
        &&& m.wf()
        &&& cell_at(cells, m.spec_from()) is Some
        &&& m.spec_to() != self.white_king
        &&& m.spec_to() != self.black_king
        &&& (self.is_castling(m) ==> {
            &&& cell_at(cells, rook_from) is Some
            &&& !is_king_of(cell_at(cells, rook_from))
            &&& !is_king_of(cell_at(cells, king_to))
            &&& !is_king_of(cell_at(cells, rook_to))
        })
        &&& (self.is_en_passant(m) ==> !is_king_of(
            cell_at(normal_cells(cells, m.spec_from(), m.spec_to()), GameState::taken_pawn_pos(m)),
        ))
    }

    /// A castling whose rook stands where the king goes: the king steps onto that field and is
    /// then carried on to the rook's end field, so it no longer stands where the state says.
    pub open spec fn rook_on_king_target(self, m: Move) -> bool {
        &&& cell_at(self.cells, m.spec_from()) is Some
        &&& self.is_castling(m)
        &&& GameState::castling_fields(m).1 == GameState::castling_fields(m).0
    }

    /// The board after the move.
    pub open spec fn cells_after(self, m: Move) -> Seq<Option<Figure>> {
        let cells = self.cells;
        let from = m.spec_from();
        let to = m.spec_to();
        if self.is_castling(m) {
            let (king_to, rook_from, rook_to) = GameState::castling_fields(m);
            normal_cells(normal_cells(cells, from, king_to), rook_from, rook_to)
        } else if self.is_en_passant(m) {
            normal_cells(cells, from, to).update(GameState::taken_pawn_pos(m).index as int, None)
        } else if let Some(pt) = self.promotion(m) {
            cells.update(from.index as int, None).update(
                to.index as int,
                Some(Figure { fig_type: pt.spec_figure_type(), color: self.moving_figure(m).color }),
            )
        } else {
            normal_cells(cells, from, to)
        }
    }

    /// What the move reports: castlings take nothing, en-passant moves take a pawn, other moves
    /// take what stood on the end field; only pawn moves move a pawn.
    pub open spec fn move_stats(self, m: Move) -> MoveStats {
        let fig = self.moving_figure(m);
        let takes = m.spec_from() != m.spec_to() && cell_at(self.cells, m.spec_to()) is Some;
        if self.is_castling(m) {
            MoveStats { did_catch_figure: false, did_move_pawn: false }
        } else if fig.fig_type == FigureType::Pawn {
            MoveStats {
                did_catch_figure: if self.is_double_step(m) {
                    false
                } else if self.is_en_passant(m) {
                    true
                } else {
                    takes
                },
                did_move_pawn: true,
            }
        } else {
            MoveStats { did_catch_figure: takes, did_move_pawn: false }
        }
    }

    /// Where the king of `color` stands after the move.
    pub open spec fn king_pos_after(self, m: Move, color: Color) -> Position {
        let fig = self.moving_figure(m);
        if fig.fig_type == FigureType::King && fig.color == color {
            if self.is_castling(m) {
                GameState::castling_fields(m).0
            } else {
                m.spec_to()
            }
        } else {
            self.king_pos_of(color)
        }
    }

    pub open spec fn en_passant_after(self, m: Move) -> Option<Position> {
        if self.is_double_step(m) {
            Some(Position::spec_at(m.spec_to().column as int, (m.spec_from().row + m.spec_to().row) / 2))
        } else {
            None
        }
    }

    /// Whether a castling right survives the move: the move neither starts nor ends on the
    /// rook's corner and is not a move of that side's king.
    pub open spec fn castling_right_after(self, m: Move, old_value: bool, corner: Position, color: Color) -> bool {
        let fig = self.moving_figure(m);
        old_value && m.spec_from() != corner && m.spec_to() != corner && !(fig.fig_type == FigureType::King
            && fig.color == color)
    }

    /// The moves the side to move can reach, ignoring whether they leave its own king in check:
    /// the figures in the order of their fields, each with its moves.
    pub open spec fn reachable_moves(self) -> Seq<Move> {
        reachable_moves_of_figures(self, figures_of_color(self.cells, self.turn_by))
    }

    /// The same position seen from the other side: rows mirrored, colors swapped, the other side
    /// to move, and each side's castling rights taken over by the other.
    pub open spec fn toggled(self) -> GameStateModel {
        GameStateModel {
            cells: toggled_cells(self.cells),
            turn_by: self.turn_by.spec_toggle(),
            white_king: self.black_king.spec_toggle_row(),
            black_king: self.white_king.spec_toggle_row(),
            en_passant: toggled_pos(self.en_passant),
            white_queen_side: self.black_queen_side,
            white_king_side: self.black_king_side,
            black_queen_side: self.white_queen_side,
            black_king_side: self.white_king_side,
        }
    }

    /// The state after the move.
    pub open spec fn after(self, m: Move) -> GameStateModel {
        GameStateModel {
            cells: self.cells_after(m),
            turn_by: self.turn_by.spec_toggle(),
            white_king: self.king_pos_after(m, Color::White),
            black_king: self.king_pos_after(m, Color::Black),
            en_passant: self.en_passant_after(m),
            white_queen_side: self.castling_right_after(m, self.white_queen_side, white_queen_side_rook_starting_pos(), Color::White),
            white_king_side: self.castling_right_after(m, self.white_king_side, white_king_side_rook_starting_pos(), Color::White),
            black_queen_side: self.castling_right_after(m, self.black_queen_side, black_queen_side_rook_starting_pos(), Color::Black),
            black_king_side: self.castling_right_after(m, self.black_king_side, black_king_side_rook_starting_pos(), Color::Black),
        }
    }
}

impl GameState {
    /// The values this game state stands for.
    pub open spec fn model(self) -> GameStateModel {
        GameStateModel {
            cells: self.board@,
            turn_by: self.turn_by,
            white_king: self.white_king_pos,
            black_king: self.black_king_pos,
            en_passant: self.en_passant_intercept_pos,
            white_queen_side: self.is_white_queen_side_castling_still_possible.spec_value(),
            white_king_side: self.is_white_king_side_castling_still_possible.spec_value(),
            black_queen_side: self.is_black_queen_side_castling_still_possible.spec_value(),
            black_king_side: self.is_black_king_side_castling_still_possible.spec_value(),
        }
    }

    /// The fields of a castling: where the king goes, where the rook comes from, where it goes.
    /// A castling move type names the side and the rook stands in that corner; a king moving
    /// onto its rook castles to the side of the rook.
    pub open spec fn castling_fields(m: Move) -> (Position, Position, Position) {
        let row = m.spec_from().row as int;
        if m.spec_move_type() == MoveType::Castling(CastlingType::KingSide) {
            (Position::spec_at(6, row), Position::spec_at(7, row), Position::spec_at(5, row))
        } else if m.spec_move_type() == MoveType::Castling(CastlingType::QueenSide) {
            (Position::spec_at(2, row), Position::spec_at(0, row), Position::spec_at(3, row))
        } else if m.spec_to().column > m.spec_from().column {
            (Position::spec_at(6, row), m.spec_to(), Position::spec_at(5, row))
        } else {
            (Position::spec_at(2, row), m.spec_to(), Position::spec_at(3, row))
        }
    }

    pub open spec fn taken_pawn_pos(m: Move) -> Position {
        Position::spec_at(m.spec_to().column as int, m.spec_from().row as int)
    }

    pub open spec fn kings_unique(self) -> bool {
        self.model().kings_unique()
    }

    pub open spec fn moving_figure(self, m: Move) -> Figure {
        self.model().moving_figure(m)
    }

    pub open spec fn is_castling(self, m: Move) -> bool {
        self.model().is_castling(m)
    }

    pub open spec fn is_double_step(self, m: Move) -> bool {
        self.model().is_double_step(m)
    }

    pub open spec fn is_en_passant(self, m: Move) -> bool {
        self.model().is_en_passant(m)
    }

    pub open spec fn promotion(self, m: Move) -> Option<PromotionType> {
        self.model().promotion(m)
    }

    pub open spec fn can_do_move(self, m: Move) -> bool {
        self.model().can_do_move(m)
    }

    pub open spec fn rook_on_king_target(self, m: Move) -> bool {
        self.model().rook_on_king_target(m)
    }

    pub open spec fn cells_after(self, m: Move) -> Seq<Option<Figure>> {
        self.model().cells_after(m)
    }

    pub open spec fn move_stats(self, m: Move) -> MoveStats {
        self.model().move_stats(m)
    }

    pub open spec fn king_pos_after(self, m: Move, color: Color) -> Position {
        self.model().king_pos_after(m, color)
    }

    pub open spec fn en_passant_after(self, m: Move) -> Option<Position> {
        self.model().en_passant_after(m)
    }

    pub open spec fn castling_right_after(self, m: Move, old_value: bool, corner: Position, color: Color) -> bool {
        self.model().castling_right_after(m, old_value, corner, color)
    }

    pub fn do_move(&self, next_move: Move) -> (r: (GameState, MoveStats))
        requires
            self.wf(),
            self.can_do_move(next_move),
        ensures
            !self.rook_on_king_target(next_move) ==> r.0.wf(),
            !self.rook_on_king_target(next_move) && self.kings_unique() ==> r.0.kings_unique(),
            r.0.white_king().wf(),
            r.0.black_king().wf(),
            r.0.en_passant_intercept_pos matches Some(p) ==> p.wf(),
            r.0.model() == self.model().after(next_move),
            r.0.board@ == self.cells_after(next_move),
            r.0.turn_by == self.turn_by.spec_toggle(),
            r.0.white_king() == self.king_pos_after(next_move, Color::White),
            r.0.black_king() == self.king_pos_after(next_move, Color::Black),
            r.0.en_passant_intercept_pos == self.en_passant_after(next_move),
            r.0.is_white_queen_side_castling_still_possible.spec_value() == self.castling_right_after(
                next_move,
                self.is_white_queen_side_castling_still_possible.spec_value(),
                white_queen_side_rook_starting_pos(),
                Color::White,
            ),
            r.0.is_white_king_side_castling_still_possible.spec_value() == self.castling_right_after(
                next_move,
                self.is_white_king_side_castling_still_possible.spec_value(),
                white_king_side_rook_starting_pos(),
                Color::White,
            ),
            r.0.is_black_queen_side_castling_still_possible.spec_value() == self.castling_right_after(
                next_move,
                self.is_black_queen_side_castling_still_possible.spec_value(),
                black_queen_side_rook_starting_pos(),
                Color::Black,
            ),
            r.0.is_black_king_side_castling_still_possible.spec_value() == self.castling_right_after(
                next_move,
                self.is_black_king_side_castling_still_possible.spec_value(),
                black_king_side_rook_starting_pos(),
                Color::Black,
            ),
            r.1 == self.move_stats(next_move),
    {
        proof {
            lemma_do_move_wf(*self, next_move);
        }
        let from = next_move.from();
        let to = next_move.to();
        let move_type = next_move.move_type();
        let mut new_board = self.board.clone();
        let moving_figure: Figure = match self.board.get_figure(from) {
            Some(f) => f,
            None => {
                return (self.clone(), MoveStats::default());
            },
        };
        proof {
            lemma_board_len(self.board);
        }
        let mut new_is_white_queen_side_castling_possible = self.is_white_queen_side_castling_still_possible;
        let mut new_is_white_king_side_castling_possible = self.is_white_king_side_castling_still_possible;
        let mut new_is_black_queen_side_castling_possible = self.is_black_queen_side_castling_still_possible;
        let mut new_is_black_king_side_castling_possible = self.is_black_king_side_castling_still_possible;
        let wq = Position::new_unchecked(0, 0);
        let wk = Position::new_unchecked(7, 0);
        let bq = Position::new_unchecked(0, 7);
        let bk = Position::new_unchecked(7, 7);
        if from == wq || to == wq {
            new_is_white_queen_side_castling_possible.deactivate();
        }
        if from == wk || to == wk {
            new_is_white_king_side_castling_possible.deactivate();
        }
        if from == bq || to == bq {
            new_is_black_queen_side_castling_possible.deactivate();
        }
        if from == bk || to == bk {
            new_is_black_king_side_castling_possible.deactivate();
        }
        let mut new_white_king_pos = self.white_king_pos;
        let mut new_black_king_pos = self.black_king_pos;
        let mut new_en_passant_intercept_pos: Option<Position> = None;
        let move_stats: MoveStats;
        match moving_figure.fig_type {
            FigureType::King => {
                let new_king_pos: Position;
                let figure_gets_caught: bool;
                let is_castling = match move_type {
                    MoveType::Castling(_) => true,
                    _ => match self.board.get_figure(to) {
                        Some(figure_to_be_caught) => figure_to_be_caught.color == self.turn_by,
                        None => false,
                    },
                };
                if is_castling {
                    new_king_pos = do_castling_move(&mut new_board, next_move);
                    figure_gets_caught = false;
                } else {
                    new_king_pos = to;
                    figure_gets_caught = do_normal_move(&mut new_board, from, to);
                }
                move_stats = MoveStats { did_catch_figure: figure_gets_caught, did_move_pawn: false };
                match moving_figure.color {
                    Color::White => {
                        new_is_white_queen_side_castling_possible.deactivate();
                        new_is_white_king_side_castling_possible.deactivate();
                        new_white_king_pos = new_king_pos;
                    },
                    Color::Black => {
                        new_is_black_queen_side_castling_possible.deactivate();
                        new_is_black_king_side_castling_possible.deactivate();
                        new_black_king_pos = new_king_pos;
                    },
                }
            },
            FigureType::Pawn => {
                let is_en_passant_field = match self.en_passant_intercept_pos {
                    Some(p) => p == to,
                    None => false,
                };
                if from.get_row_distance(to) == 2 {
                    do_normal_move(&mut new_board, from, to);
                    new_en_passant_intercept_pos = Some(Position::new_unchecked(to.column, (from.row + to.row) / 2));
                    move_stats = MoveStats { did_catch_figure: false, did_move_pawn: true };
                } else if move_type == MoveType::EnPassant || is_en_passant_field {
                    do_en_passant_move(&mut new_board, next_move);
                    move_stats = MoveStats { did_catch_figure: true, did_move_pawn: true };
                } else if let MoveType::PawnPromotion(promotion_type) = move_type {
                    let figure_gets_caught = do_promotion_move(&mut new_board, from, to, Figure {
                        fig_type: promotion_type.get_figure_type(),
                        color: moving_figure.color,
                    });
                    move_stats = MoveStats { did_catch_figure: figure_gets_caught, did_move_pawn: true };
                } else {
                    let figure_gets_caught = do_normal_move(&mut new_board, from, to);
                    move_stats = MoveStats { did_catch_figure: figure_gets_caught, did_move_pawn: true };
                }
            },
            _ => {
                let figure_gets_caught = do_normal_move(&mut new_board, from, to);
                move_stats = MoveStats { did_catch_figure: figure_gets_caught, did_move_pawn: false };
            },
        }
        let r = GameState {
            board: new_board,
            turn_by: self.turn_by.toggle(),
            white_king_pos: new_white_king_pos,
            black_king_pos: new_black_king_pos,
            en_passant_intercept_pos: new_en_passant_intercept_pos,
            is_white_queen_side_castling_still_possible: new_is_white_queen_side_castling_possible,
            is_white_king_side_castling_still_possible: new_is_white_king_side_castling_possible,
            is_black_queen_side_castling_still_possible: new_is_black_queen_side_castling_possible,
            is_black_king_side_castling_still_possible: new_is_black_king_side_castling_possible,
        };
        (r, move_stats)
    }
}


/// The moves the figures in `figs` can reach in `s`, figure after figure.
pub open spec fn reachable_moves_of_figures(s: GameStateModel, figs: Seq<(Figure, Position)>) -> Seq<Move>
    decreases figs.len(),
{
    if figs.len() == 0 {
        Seq::empty()
    } else {
        reachable_moves_of_figures(s, figs.drop_last()) + spec_reachable_moves_of(
            s,
            figs.last().0.fig_type,
            figs.last().1,
        )
    }
}

impl GameState {
    /// The moves the side to move can reach, ignoring whether they leave its own king in check:
    /// the figures in the order of their fields, each with its moves.
    pub open spec fn spec_reachable_moves(self) -> Seq<Move> {
        self.model().reachable_moves()
    }

    pub fn get_reachable_moves(&self) -> (r: Moves)
        requires
            self.wf(),
            self.side_fits(self.turn_by),
        ensures
            r@ == self.spec_reachable_moves(),
    {
        let ghost figs = figures_of_color(self.board@, self.turn_by);
        proof {
            lemma_board_len(self.board);
            lemma_figures_of_color_len(self.board@, self.turn_by);
            lemma_figures_of_color_entries(self.board@, self.turn_by);
        }
        let mut move_collector = Moves::new();
        let figures_of_color_with_pos = self.board.get_all_figures_of_color(self.turn_by);
        let mut i: usize = 0;
        assert(figs.take(0) =~= Seq::<(Figure, Position)>::empty());
        assert(figs.take(figs.len() as int) =~= figs);
        while i < 16
            invariant
                self.wf(),
                figs == figures_of_color(self.board@, self.turn_by),
                figs.len() <= 16,
                figs.take(figs.len() as int) == figs,
                i <= figs.len(),
                forall|k: int| 0 <= k < 16 ==> #[trigger] figures_of_color_with_pos@[k] == (if k < figs.len() {
                    Some(figs[k])
                } else {
                    None
                }),
                forall|k: int| 0 <= k < figs.len() ==> (#[trigger] figs[k]).1.wf(),
                move_collector@ == reachable_moves_of_figures(self.model(), figs.take(i as int)),
            ensures
                move_collector@ == reachable_moves_of_figures(self.model(), figs),
            decreases 16 - i,
        {
            match figures_of_color_with_pos[i] {
                Some((figure, pos)) => {
                    assert(figs[i as int].1.wf());
                    for_reachable_moves(figure.fig_type, pos, self, &mut move_collector);
                    assert(figs.take(i + 1).drop_last() =~= figs.take(i as int));
                },
                None => {
                    assert(figs.take(i as int) =~= figs);
                    break;
                },
            }
            i = i + 1;
        }
        move_collector
    }
}


/// A field in the same column and the mirrored row, if there is one.
pub open spec fn toggled_pos(o: Option<Position>) -> Option<Position> {
    match o {
        Some(p) => Some(p.spec_toggle_row()),
        None => None,
    }
}

impl GameState {
    /// The same position seen from the other side: rows mirrored, colors swapped, the other side
    /// to move, and each side's castling rights taken over by the other. Each side lists at
    /// most sixteen figures.
    pub fn toggle_colors(&self) -> (r: GameState)
        requires
            self.wf(),
            self.figures_fit(),
        ensures
            r.wf(),
            r.figures_fit(),
            self.kings_unique() ==> r.kings_unique(),
            r.model() == self.model().toggled(),
            r.board@ == toggled_cells(self.board@),
            r.turn_by == self.turn_by.spec_toggle(),
            r.white_king() == self.black_king().spec_toggle_row(),
            r.black_king() == self.white_king().spec_toggle_row(),
            r.en_passant_intercept_pos == toggled_pos(self.en_passant_intercept_pos),
            r.is_white_queen_side_castling_still_possible == self.is_black_queen_side_castling_still_possible,
            r.is_white_king_side_castling_still_possible == self.is_black_king_side_castling_still_possible,
            r.is_black_queen_side_castling_still_possible == self.is_white_queen_side_castling_still_possible,
            r.is_black_king_side_castling_still_possible == self.is_white_king_side_castling_still_possible,
    {
        let ghost cells = self.board@;
        proof {
            lemma_board_len(self.board);
        }
        let mut toggled_board = Board::empty();
        let mut i: usize = 0;
        while i < 64
            invariant
                cells == self.board@,
                cells.len() == 64,
                i <= 64,
                toggled_board@.len() == 64,
                forall|j: int| 0 <= j < 64 ==> #[trigger] toggled_board@[j] == (if j < i {
                    toggled_cell(cells[toggle_index(j)])
                } else {
                    None
                }),
            decreases 64 - i,
        {
            let pos = Position::from_index_unchecked(i);
            let mirrored = pos.toggle_row();
            proof {
                lemma_toggle_index(i as int);
            }
            if let Some(figure) = self.board.get_figure(mirrored) {
                toggled_board.set_figure(pos, Figure { fig_type: figure.fig_type, color: figure.color.toggle() });
            }
            i = i + 1;
        }
        assert(toggled_board@ =~= toggled_cells(cells));
        let en_passant_intercept_pos = match self.en_passant_intercept_pos {
            Some(pos) => Some(pos.toggle_row()),
            None => None,
        };
        let r = GameState {
            board: toggled_board,
            turn_by: self.turn_by.toggle(),
            white_king_pos: self.black_king_pos.toggle_row(),
            black_king_pos: self.white_king_pos.toggle_row(),
            en_passant_intercept_pos,
            is_white_queen_side_castling_still_possible: self.is_black_queen_side_castling_still_possible,
            is_white_king_side_castling_still_possible: self.is_black_king_side_castling_still_possible,
            is_black_queen_side_castling_still_possible: self.is_white_queen_side_castling_still_possible,
            is_black_king_side_castling_still_possible: self.is_white_king_side_castling_still_possible,
        };
        proof {
            lemma_toggled_state_wf(*self);
        }
        r
    }
}

/// Seeing a position from the other side twice gives the position back.
pub proof fn lemma_toggle_colors_involution(s: GameState)
    requires
        s.wf(),
    ensures
        s.model().toggled().toggled() == s.model(),
{
    lemma_board_len(s.board);
    crate::game::board::lemma_toggled_cells_involution(s.board@);
    crate::base::color::lemma_toggle_involution(s.turn_by);
    crate::base::position::lemma_toggle_row_involution(s.white_king());
    crate::base::position::lemma_toggle_row_involution(s.black_king());
    if let Some(p) = s.en_passant_intercept_pos {
        crate::base::position::lemma_toggle_row_involution(p);
    }
}

/// Toggling keeps the kings where the state says, keeps each side's count of figures (now under
/// the other color), and keeps each side's single king.
pub proof fn lemma_toggled_state_wf(s: GameState)
    requires
        s.wf(),
    ensures
        s.black_king().spec_toggle_row().wf(),
        s.white_king().spec_toggle_row().wf(),
        cell_at(toggled_cells(s.board@), s.black_king().spec_toggle_row()) == Some(king_of(Color::White)),
        cell_at(toggled_cells(s.board@), s.white_king().spec_toggle_row()) == Some(king_of(Color::Black)),
        count_where(toggled_cells(s.board@), of_color(Color::White)) == count_where(s.board@, of_color(Color::Black)),
        count_where(toggled_cells(s.board@), of_color(Color::Black)) == count_where(s.board@, of_color(Color::White)),
        count_where(toggled_cells(s.board@), of_kind(FigureType::King, Color::White)) == count_where(
            s.board@,
            of_kind(FigureType::King, Color::Black),
        ),
        count_where(toggled_cells(s.board@), of_kind(FigureType::King, Color::Black)) == count_where(
            s.board@,
            of_kind(FigureType::King, Color::White),
        ),
        toggled_pos(s.en_passant_intercept_pos) matches Some(p) ==> p.wf(),
{
    let cells = s.board@;
    lemma_board_len(s.board);
    crate::base::position::lemma_position_at(s.white_king());
    crate::base::position::lemma_position_at(s.black_king());
    lemma_toggle_index(s.white_king().index as int);
    lemma_toggle_index(s.black_king().index as int);
    crate::base::position::lemma_toggle_row_involution(s.white_king());
    crate::base::position::lemma_toggle_row_involution(s.black_king());
    if let Some(p) = s.en_passant_intercept_pos {
        crate::base::position::lemma_toggle_row_involution(p);
    }
    assert forall|c: Color| #![trigger of_color(c)]
        forall|x: Option<Figure>| #[trigger] of_color(c.spec_toggle())(toggled_cell(x)) == of_color(c)(x) by {
        assert forall|x: Option<Figure>| #[trigger] of_color(c.spec_toggle())(toggled_cell(x)) == of_color(c)(x) by {
            if let Some(f) = x {
                crate::base::color::lemma_toggle_involution(f.color);
                crate::base::color::lemma_toggle_involution(c);
            }
        }
    }
    assert forall|c: Color| #![trigger of_kind(FigureType::King, c)]
        forall|x: Option<Figure>| #[trigger] of_kind(FigureType::King, c.spec_toggle())(toggled_cell(x)) == of_kind(FigureType::King, c)(x) by {
        assert forall|x: Option<Figure>| #[trigger] of_kind(FigureType::King, c.spec_toggle())(toggled_cell(x)) == of_kind(FigureType::King, c)(x) by {
            if let Some(f) = x {
                crate::base::color::lemma_toggle_involution(f.color);
                crate::base::color::lemma_toggle_involution(c);
            }
        }
    }
    assert(Color::White == Color::Black.spec_toggle());
    assert(Color::Black == Color::White.spec_toggle());
    lemma_count_toggled(cells, of_color(Color::Black), of_color(Color::White));
    lemma_count_toggled(cells, of_color(Color::White), of_color(Color::Black));
    lemma_count_toggled(cells, of_kind(FigureType::King, Color::Black), of_kind(FigureType::King, Color::White));
    lemma_count_toggled(cells, of_kind(FigureType::King, Color::White), of_kind(FigureType::King, Color::Black));
}


/// The board with the figures placed one after the other on an empty board.
pub open spec fn placed_cells(figs: Seq<FigureAndPosition>) -> Seq<Option<Figure>>
    decreases figs.len(),
{
    if figs.len() == 0 {
        Seq::new(64, |i: int| None::<Figure>)
    } else {
        placed_cells(figs.drop_last()).update(figs.last().pos.index as int, Some(figs.last().figure))
    }
}

/// No two figures are placed on the same field.
pub open spec fn positions_distinct(figs: Seq<FigureAndPosition>) -> bool {
    forall|i: int, j: int| 0 <= i < j < figs.len() ==> (#[trigger] figs[i]).pos != (#[trigger] figs[j]).pos
}

/// No pawn is placed on the first or the last row.
pub open spec fn no_pawn_on_end_rows(figs: Seq<FigureAndPosition>) -> bool {
    forall|i: int| 0 <= i < figs.len() && (#[trigger] figs[i]).figure.fig_type == FigureType::Pawn ==> figs[i].pos.row
        != 0 && figs[i].pos.row != 7
}

/// An en-passant field fits the board: it lies on the sixth row seen from the side to move,
/// the opponent's pawn stands one row further from that side, and the field behind is empty.
pub open spec fn en_passant_fits(turn_by: Color, en_passant: Option<Position>, cells: Seq<Option<Figure>>) -> bool {
    match en_passant {
        None => true,
        Some(p) => {
            let (expected_row, forward) = match turn_by {
                Color::White => (5int, Direction::Down),
                Color::Black => (2int, Direction::Up),
            };
            &&& p.row == expected_row
            &&& cells[p.spec_step(forward)->0.index as int] matches Some(f) && f.fig_type == FigureType::Pawn && f.color
                != turn_by
            &&& cells[p.spec_step(forward.spec_reverse())->0.index as int] is None
        },
    }
}

/// When a configuration is accepted: the figures stand on distinct fields, no pawn stands on
/// the first or last row, each side has exactly one king, and the en-passant field fits the
/// board.
pub open spec fn config_ok(turn_by: Color, en_passant: Option<Position>, figs: Seq<FigureAndPosition>) -> bool {
    let cells = placed_cells(figs);
    &&& positions_distinct(figs)
    &&& no_pawn_on_end_rows(figs)
    &&& count_where(cells, of_kind(FigureType::King, Color::White)) == 1
    &&& count_where(cells, of_kind(FigureType::King, Color::Black)) == 1
    &&& en_passant_fits(turn_by, en_passant, cells)
}

/// A castling stays possible in a configured game when king and rook stand on their starting
/// fields.
pub open spec fn castling_configured(cells: Seq<Option<Figure>>, king: Position, king_start: Position, rook_start: Position, color: Color) -> bool {
    king == king_start && cells[rook_start.index as int] == Some(Figure { fig_type: FigureType::Rook, color })
}

/// The field the king of `color` stands on.
pub open spec fn king_field(cells: Seq<Option<Figure>>, color: Color) -> Position {
    choose|p: Position| p.wf() && cells[p.index as int] == Some(king_of(color))
}

/// The state `from_manual_config` builds from an accepted configuration.
pub open spec fn configured_model(turn_by: Color, en_passant: Option<Position>, figs: Seq<FigureAndPosition>) -> GameStateModel {
    let cells = placed_cells(figs);
    let white_king = king_field(cells, Color::White);
    let black_king = king_field(cells, Color::Black);
    GameStateModel {
        cells,
        turn_by,
        white_king,
        black_king,
        en_passant,
        white_queen_side: castling_configured(cells, white_king, white_king_starting_pos(), white_queen_side_rook_starting_pos(), Color::White),
        white_king_side: castling_configured(cells, white_king, white_king_starting_pos(), white_king_side_rook_starting_pos(), Color::White),
        black_queen_side: castling_configured(cells, black_king, black_king_starting_pos(), black_queen_side_rook_starting_pos(), Color::Black),
        black_king_side: castling_configured(cells, black_king, black_king_starting_pos(), black_king_side_rook_starting_pos(), Color::Black),
    }
}

/// On a board with a single king of `color`, `king_field` names the field it stands on.
pub proof fn lemma_king_field(cells: Seq<Option<Figure>>, color: Color, p: Position)
    requires
        cells.len() == 64,
        p.wf(),
        cells[p.index as int] == Some(king_of(color)),
        count_where(cells, of_kind(FigureType::King, color)) == 1,
    ensures
        king_field(cells, color) == p,
{
    let q = king_field(cells, color);
    assert(q.wf() && cells[q.index as int] == Some(king_of(color)));
    lemma_unique_king(cells, q.index as int, p.index as int, color);
    lemma_position_eq_by_index(p, q);
}

/// Placing figures on distinct fields never lowers a count.
proof fn lemma_placed_count_monotone(figs: Seq<FigureAndPosition>, i: int, f: spec_fn(Option<Figure>) -> bool)
    requires
        0 <= i <= figs.len(),
        positions_distinct(figs),
        forall|k: int| 0 <= k < figs.len() ==> (#[trigger] figs[k]).pos.wf(),
        !f(None),
    ensures
        count_where(placed_cells(figs.take(i)), f) <= count_where(placed_cells(figs), f),
    decreases figs.len() - i,
{
    if i < figs.len() {
        lemma_placed_count_monotone(figs, i + 1, f);
        let prefix = figs.take(i);
        let next = figs.take(i + 1);
        assert(next.drop_last() =~= prefix);
        lemma_placed_cell_empty(figs, i);
        lemma_placed_len(prefix);
        lemma_count_update(placed_cells(prefix), figs[i].pos.index as int, Some(figs[i].figure), f);
    } else {
        assert(figs.take(i) =~= figs);
    }
}

proof fn lemma_placed_len(figs: Seq<FigureAndPosition>)
    requires
        forall|k: int| 0 <= k < figs.len() ==> (#[trigger] figs[k]).pos.wf(),
    ensures
        placed_cells(figs).len() == 64,
    decreases figs.len(),
{
    if figs.len() > 0 {
        lemma_placed_len(figs.drop_last());
    }
}

/// With distinct fields, the field of the i-th figure is still empty before it is placed.
proof fn lemma_placed_cell_empty(figs: Seq<FigureAndPosition>, i: int)
    requires
        0 <= i < figs.len(),
        positions_distinct(figs),
        forall|k: int| 0 <= k < figs.len() ==> (#[trigger] figs[k]).pos.wf(),
    ensures
        placed_cells(figs.take(i))[figs[i].pos.index as int] is None,
{
    lemma_placed_other_cells(figs.take(i), figs[i].pos);
}

/// A field none of the figures is placed on stays empty.
proof fn lemma_placed_other_cells(figs: Seq<FigureAndPosition>, p: Position)
    requires
        p.wf(),
        forall|k: int| 0 <= k < figs.len() ==> (#[trigger] figs[k]).pos.wf() && figs[k].pos != p,
    ensures
        placed_cells(figs)[p.index as int] is None,
    decreases figs.len(),
{
    if figs.len() > 0 {
        lemma_placed_other_cells(figs.drop_last(), p);
        lemma_placed_len(figs.drop_last());
        assert(figs.last() == figs[figs.len() - 1]);
        lemma_position_eq_by_index(p, figs.last().pos);
    }
}

impl GameState {
    /// The game state with the given figures on an otherwise empty board. Castling stays possible
    /// where king and rook stand on their starting fields.
    pub fn from_manual_config(
        turn_by: Color,
        en_passant_intercept_pos: Option<Position>,
        positioned_figures: Vec<FigureAndPosition>,
    ) -> (r: Result<GameState, ChessError>)
        requires
            forall|k: int| 0 <= k < positioned_figures@.len() ==> (#[trigger] positioned_figures@[k]).pos.wf(),
            en_passant_intercept_pos matches Some(p) ==> p.wf(),
        ensures
            r is Ok <==> config_ok(turn_by, en_passant_intercept_pos, positioned_figures@),
            r matches Err(e) ==> e.kind == ErrorKind::IllegalConfig,
            r matches Ok(gs) ==> {
                let cells = placed_cells(positioned_figures@);
                &&& gs.wf()
                &&& gs.kings_unique()
                &&& gs.board@ == cells
                &&& gs.model() == configured_model(turn_by, en_passant_intercept_pos, positioned_figures@)
                &&& gs.turn_by == turn_by
                &&& gs.en_passant_intercept_pos == en_passant_intercept_pos
                &&& cell_at(cells, gs.white_king()) == Some(king_of(Color::White))
                &&& cell_at(cells, gs.black_king()) == Some(king_of(Color::Black))
                &&& gs.is_white_queen_side_castling_still_possible.spec_value() == castling_configured(
                    cells,
                    gs.white_king(),
                    white_king_starting_pos(),
                    white_queen_side_rook_starting_pos(),
                    Color::White,
                )
                &&& gs.is_white_king_side_castling_still_possible.spec_value() == castling_configured(
                    cells,
                    gs.white_king(),
                    white_king_starting_pos(),
                    white_king_side_rook_starting_pos(),
                    Color::White,
                )
                &&& gs.is_black_queen_side_castling_still_possible.spec_value() == castling_configured(
                    cells,
                    gs.black_king(),
                    black_king_starting_pos(),
                    black_queen_side_rook_starting_pos(),
                    Color::Black,
                )
                &&& gs.is_black_king_side_castling_still_possible.spec_value() == castling_configured(
                    cells,
                    gs.black_king(),
                    black_king_starting_pos(),
                    black_king_side_rook_starting_pos(),
                    Color::Black,
                )
            },
    {
        let ghost figs = positioned_figures@;
        let mut board = Board::empty();
        let mut opt_white_king_pos: Option<Position> = None;
        let mut opt_black_king_pos: Option<Position> = None;
        let mut i: usize = 0;
        assert(figs.take(0) =~= Seq::<FigureAndPosition>::empty());
        assert(board@ =~= placed_cells(figs.take(0)));
        proof {
            crate::game::board::lemma_count_positive(board@, of_kind(FigureType::King, Color::White));
            crate::game::board::lemma_count_positive(board@, of_kind(FigureType::King, Color::Black));
        }
        while i < positioned_figures.len()
            invariant
                figs == positioned_figures@,
                forall|k: int| 0 <= k < figs.len() ==> (#[trigger] figs[k]).pos.wf(),
                i <= figs.len(),
                board@ == placed_cells(figs.take(i as int)),
                board@.len() == 64,
                positions_distinct(figs.take(i as int)),
                no_pawn_on_end_rows(figs.take(i as int)),
                match opt_white_king_pos {
                    None => count_where(board@, of_kind(FigureType::King, Color::White)) == 0,
                    Some(p) => count_where(board@, of_kind(FigureType::King, Color::White)) == 1 && p.wf()
                        && board@[p.index as int] == Some(king_of(Color::White)),
                },
                match opt_black_king_pos {
                    None => count_where(board@, of_kind(FigureType::King, Color::Black)) == 0,
                    Some(p) => count_where(board@, of_kind(FigureType::King, Color::Black)) == 1 && p.wf()
                        && board@[p.index as int] == Some(king_of(Color::Black)),
                },
            decreases figs.len() - i,
        {
            let figure_and_pos = positioned_figures[i];
            let ghost before = board@;
            let ghost prefix = figs.take(i as int);
            let ghost next = figs.take(i + 1);
            assert(next.drop_last() =~= prefix);
            assert(next.last() == figure_and_pos);
            let field_was_already_in_use = board.set_figure(figure_and_pos.pos, figure_and_pos.figure);
            if field_was_already_in_use {
                proof {
                    // an earlier figure stands on the same field
                    if positions_distinct(figs) {
                        lemma_placed_cell_empty(figs, i as int);
                    }
                }
                let pos_code = figure_and_pos.pos.to_string();
                return Err(chess_error(ErrorKind::IllegalConfig, "multiple figures placed on ", pos_code.as_str()));
            }
            proof {
                lemma_count_update(before, figure_and_pos.pos.index as int, Some(figure_and_pos.figure), of_kind(FigureType::King, Color::White));
                lemma_count_update(before, figure_and_pos.pos.index as int, Some(figure_and_pos.figure), of_kind(FigureType::King, Color::Black));
                assert forall|a: int, b: int| 0 <= a < b < next.len() implies (#[trigger] next[a]).pos != (#[trigger] next[b]).pos by {
                    if b == i {
                        if next[a].pos == figure_and_pos.pos {
                            lemma_placed_cell_contains(prefix, a);
                        }
                    } else {
                        assert(prefix[a] == next[a] && prefix[b] == next[b]);
                    }
                }
            }
            match figure_and_pos.figure.fig_type {
                FigureType::Pawn => {
                    let pawn_pos_row = figure_and_pos.pos.row;
                    if pawn_pos_row == 0 || pawn_pos_row == 7 {
                        let pos_code = figure_and_pos.pos.to_string();
                        return Err(chess_error(ErrorKind::IllegalConfig, "can't place a pawn on ", pos_code.as_str()));
                    }
                },
                FigureType::King => {
                    match figure_and_pos.figure.color {
                        Color::White => {
                            if opt_white_king_pos.is_some() {
                                proof {
                                    if positions_distinct(figs) {
                                        lemma_placed_count_monotone(figs, i + 1, of_kind(FigureType::King, Color::White));
                                    }
                                }
                                let pos_code = figure_and_pos.pos.to_string();
                                return Err(chess_error(ErrorKind::IllegalConfig, "a second white king is placed on ", pos_code.as_str()));
                            }
                            opt_white_king_pos = Some(figure_and_pos.pos);
                        },
                        Color::Black => {
                            if opt_black_king_pos.is_some() {
                                proof {
                                    if positions_distinct(figs) {
                                        lemma_placed_count_monotone(figs, i + 1, of_kind(FigureType::King, Color::Black));
                                    }
                                }
                                let pos_code = figure_and_pos.pos.to_string();
                                return Err(chess_error(ErrorKind::IllegalConfig, "a second black king is placed on ", pos_code.as_str()));
                            }
                            opt_black_king_pos = Some(figure_and_pos.pos);
                        },
                    }
                },
                _ => {},
            }
            proof {
                if let Some(p) = opt_white_king_pos {
                    lemma_position_eq_by_index(figure_and_pos.pos, p);
                }
                if let Some(p) = opt_black_king_pos {
                    lemma_position_eq_by_index(figure_and_pos.pos, p);
                }
            }
            i = i + 1;
        }
        assert(figs.take(i as int) =~= figs);
        // check en-passant
        if let Some(en_passant_pos) = en_passant_intercept_pos {
            let expected_row: i8;
            let forward_dir: Direction;
            match turn_by {
                Color::White => {
                    expected_row = 5;
                    forward_dir = Direction::Down;
                },
                Color::Black => {
                    expected_row = 2;
                    forward_dir = Direction::Up;
                },
            }
            if en_passant_pos.row != expected_row {
                let pos_code = en_passant_pos.to_string();
                return Err(chess_error(
                    ErrorKind::IllegalConfig,
                    "the en-passant position lies on the wrong row for the side to move: ",
                    pos_code.as_str(),
                ));
            }
            let forward_pawn_pos = en_passant_pos.step_unchecked(forward_dir);
            let mut contains_correct_pawn = false;
            if let Some(forward_figure) = board.get_figure(forward_pawn_pos) {
                if forward_figure.fig_type == FigureType::Pawn && forward_figure.color != turn_by {
                    contains_correct_pawn = true;
                }
            }
            if !contains_correct_pawn {
                let pos_code = forward_pawn_pos.to_string();
                return Err(chess_error(
                    ErrorKind::IllegalConfig,
                    "since there is an en-passant position, there should be a pawn of the opponent on ",
                    pos_code.as_str(),
                ));
            }
            let backward_empty_pos = en_passant_pos.step_unchecked(forward_dir.reverse());
            if !board.is_empty(backward_empty_pos) {
                let pos_code = backward_empty_pos.to_string();
                return Err(chess_error(
                    ErrorKind::IllegalConfig,
                    "since there is an en-passant position, the position behind it should be empty: ",
                    pos_code.as_str(),
                ));
            }
        }
        let white_king_pos = match opt_white_king_pos {
            Some(pos) => pos,
            None => {
                return Err(chess_error(ErrorKind::IllegalConfig, "no white king configured", ""));
            },
        };
        let black_king_pos = match opt_black_king_pos {
            Some(pos) => pos,
            None => {
                return Err(chess_error(ErrorKind::IllegalConfig, "no black king configured", ""));
            },
        };
        let is_white_king_on_starting_pos = white_king_pos == white_king_starting_position();
        let is_black_king_on_starting_pos = black_king_pos == black_king_starting_position();
        let is_white_queen_side_rook_on_starting_pos = board_contains_rook_at(
            Position::new_unchecked(0, 0),
            Color::White,
            &board,
        );
        let is_white_king_side_rook_on_starting_pos = board_contains_rook_at(
            Position::new_unchecked(7, 0),
            Color::White,
            &board,
        );
        let is_black_queen_side_rook_on_starting_pos = board_contains_rook_at(
            Position::new_unchecked(0, 7),
            Color::Black,
            &board,
        );
        let is_black_king_side_rook_on_starting_pos = board_contains_rook_at(
            Position::new_unchecked(7, 7),
            Color::Black,
            &board,
        );
        proof {
            lemma_king_field(board@, Color::White, white_king_pos);
            lemma_king_field(board@, Color::Black, black_king_pos);
        }
        let game_state = GameState {
            board,
            turn_by,
            white_king_pos,
            black_king_pos,
            en_passant_intercept_pos,
            is_white_queen_side_castling_still_possible: Deactivatable::new(
                is_white_king_on_starting_pos && is_white_queen_side_rook_on_starting_pos,
            ),
            is_white_king_side_castling_still_possible: Deactivatable::new(
                is_white_king_on_starting_pos && is_white_king_side_rook_on_starting_pos,
            ),
            is_black_queen_side_castling_still_possible: Deactivatable::new(
                is_black_king_on_starting_pos && is_black_queen_side_rook_on_starting_pos,
            ),
            is_black_king_side_castling_still_possible: Deactivatable::new(
                is_black_king_on_starting_pos && is_black_king_side_rook_on_starting_pos,
            ),
        };
        Ok(game_state)
    }
}

/// A field a figure is placed on holds a figure afterwards.
proof fn lemma_placed_cell_contains(figs: Seq<FigureAndPosition>, a: int)
    requires
        0 <= a < figs.len(),
        forall|k: int| 0 <= k < figs.len() ==> (#[trigger] figs[k]).pos.wf(),
    ensures
        placed_cells(figs)[figs[a].pos.index as int] is Some,
    decreases figs.len(),
{
    lemma_placed_len(figs.drop_last());
    if a < figs.len() - 1 {
        lemma_placed_cell_contains(figs.drop_last(), a);
        assert(figs.drop_last()[a] == figs[a]);
    }
}

fn board_contains_rook_at(pos: Position, color: Color, board: &Board) -> (r: bool)
    requires
        pos.wf(),
    ensures
        r == (board@[pos.index as int] == Some(Figure { fig_type: FigureType::Rook, color })),
{
    if let Some(figure) = board.get_figure(pos) {
        figure.fig_type == FigureType::Rook && figure.color == color
    } else {
        false
    }
}


impl GameState {
    /// Whether `do_move` can make the move: see `can_do_move`.
    pub fn is_move_possible(&self, m: Move) -> (r: bool)
        requires
            self.wf(),
        ensures
            r == self.can_do_move(m),
    {
        let from = m.from();
        let to = m.to();
        proof {
            lemma_board_len(self.board);
            lemma_position_eq_by_index(to, from);
        }
        let fig = match self.board.get_figure(from) {
            None => return false,
            Some(f) => f,
        };
        if to == self.white_king_pos || to == self.black_king_pos {
            return false;
        }
        let move_type = m.move_type();
        if fig.fig_type == FigureType::King {
            let is_castling = match move_type {
                MoveType::Castling(_) => true,
                _ => match self.board.get_figure(to) {
                    Some(f) => f.color == self.turn_by,
                    None => false,
                },
            };
            if is_castling {
                let (king_to, rook_from, rook_to) = castling_fields_of(m);
                let rook_ok = match self.board.get_figure(rook_from) {
                    Some(f) => f.fig_type != FigureType::King,
                    None => false,
                };
                return rook_ok && !holds_king(&self.board, king_to) && !holds_king(&self.board, rook_to);
            }
        }
        if fig.fig_type == FigureType::Pawn && from.get_row_distance(to) != 2 {
            let is_en_passant_field = match self.en_passant_intercept_pos {
                Some(p) => p == to,
                None => false,
            };
            if move_type == MoveType::EnPassant || is_en_passant_field {
                let taken_pawn_pos = Position::new_unchecked(to.column, from.row);
                proof {
                    lemma_position_eq_by_index(taken_pawn_pos, from);
                    lemma_position_eq_by_index(taken_pawn_pos, to);
                }
                if taken_pawn_pos == to || taken_pawn_pos == from {
                    return true;
                }
                return !holds_king(&self.board, taken_pawn_pos);
            }
        }
        true
    }
}

impl GameState {
    /// Whether the move is a castling whose rook stands where the king goes; see
    /// `rook_on_king_target`.
    pub fn is_rook_on_king_target(&self, m: Move) -> (r: bool)
        requires
            self.wf(),
        ensures
            r == self.rook_on_king_target(m),
    {
        let from = m.from();
        let to = m.to();
        proof {
            lemma_board_len(self.board);
        }
        let is_king = match self.board.get_figure(from) {
            Some(f) => f.fig_type == FigureType::King,
            None => false,
        };
        if !is_king {
            return false;
        }
        let is_castling = match m.move_type() {
            MoveType::Castling(_) => true,
            _ => match self.board.get_figure(to) {
                Some(f) => f.color == self.turn_by,
                None => false,
            },
        };
        if !is_castling {
            return false;
        }
        let (king_to, rook_from, _) = castling_fields_of(m);
        rook_from == king_to
    }
}

fn holds_king(board: &Board, pos: Position) -> (r: bool)
    requires
        pos.wf(),
    ensures
        r == is_king_of(board@[pos.index as int]),
{
    match board.get_figure(pos) {
        Some(f) => f.fig_type == FigureType::King,
        None => false,
    }
}


/// The number of moves the figures in `figs` reach, as `count_reachable_moves` counts them.
pub open spec fn reachable_area(cells: Seq<Option<Figure>>, figs: Seq<(Figure, Position)>) -> int
    decreases figs.len(),
{
    if figs.len() == 0 {
        0
    } else {
        reachable_area(cells, figs.drop_last()) + spec_count_reachable_moves(
            figs.last().0.fig_type,
            figs.last().0.color,
            figs.last().1,
            cells,
        )
    }
}

impl GameState {
    /// How many more moves (as `count_reachable_moves` counts them) the white figures reach than
    /// the black ones.
    pub fn count_reachable_moves_diff_for_white(&self) -> (r: isize)
        requires
            self.wf(),
            self.figures_fit(),
        ensures
            r == reachable_area(self.board@, figures_of_color(self.board@, Color::White)) - reachable_area(
                self.board@,
                figures_of_color(self.board@, Color::Black),
            ),
    {
        let white_area = self.reachable_area_of(Color::White);
        let black_area = self.reachable_area_of(Color::Black);
        white_area - black_area
    }

    fn reachable_area_of(&self, color: Color) -> (r: isize)
        requires
            self.wf(),
            self.side_fits(color),
        ensures
            r == reachable_area(self.board@, figures_of_color(self.board@, color)),
            0 <= r <= 1024,
    {
        let ghost figs = figures_of_color(self.board@, color);
        proof {
            lemma_board_len(self.board);
            lemma_figures_of_color_len(self.board@, color);
            lemma_figures_of_color_entries(self.board@, color);
        }
        let figures = self.board.get_all_figures_of_color(color);
        let mut area: isize = 0;
        let mut i: usize = 0;
        assert(figs.take(0) =~= Seq::<(Figure, Position)>::empty());
        assert(figs.take(figs.len() as int) =~= figs);
        while i < 16
            invariant
                self.wf(),
                figs == figures_of_color(self.board@, color),
                figs.len() <= 16,
                figs.take(figs.len() as int) == figs,
                i <= figs.len(),
                forall|k: int| 0 <= k < 16 ==> #[trigger] figures@[k] == (if k < figs.len() {
                    Some(figs[k])
                } else {
                    None
                }),
                forall|k: int| 0 <= k < figs.len() ==> (#[trigger] figs[k]).1.wf(),
                area == reachable_area(self.board@, figs.take(i as int)),
                0 <= area <= 64 * i,
            ensures
                area == reachable_area(self.board@, figs),
                0 <= area <= 1024,
            decreases 16 - i,
        {
            match figures[i] {
                Some((figure, pos)) => {
                    assert(figs[i as int].1.wf());
                    let n = count_reachable_moves(figure.fig_type, figure.color, pos, &self.board);
                    assert(figs.take(i + 1).drop_last() =~= figs.take(i as int));
                    area = area + n as isize;
                },
                None => {
                    assert(figs.take(i as int) =~= figs);
                    break;
                },
            }
            i = i + 1;
        }
        area
    }
}


/// A move starts on a field with a figure of `color` and ends on a field of the board without one.
pub open spec fn move_of_side(cells: Seq<Option<Figure>>, color: Color, m: Move) -> bool {
    &&& m.spec_from().wf()
    &&& cells[m.spec_from().index as int] matches Some(f) && f.color == color
    &&& m.spec_to().wf()
    &&& !(cells[m.spec_to().index as int] matches Some(f) && f.color == color)
}

proof fn lemma_figures_moves_of_side(s: GameStateModel, figs: Seq<(Figure, Position)>)
    requires
        s.cells.len() == 64,
        forall|j: int| 0 <= j < figs.len() ==> {
            let (f, p) = #[trigger] figs[j];
            &&& p.wf()
            &&& s.cells[p.index as int] == Some(f)
            &&& f.color == s.turn_by
        },
    ensures
        forall|k: int| 0 <= k < reachable_moves_of_figures(s, figs).len() ==> #[trigger] move_of_side(
            s.cells,
            s.turn_by,
            reachable_moves_of_figures(s, figs)[k],
        ),
    decreases figs.len(),
{
    if figs.len() > 0 {
        let rest = figs.drop_last();
        assert forall|j: int| 0 <= j < rest.len() implies {
            let (f, p) = #[trigger] rest[j];
            &&& p.wf()
            &&& s.cells[p.index as int] == Some(f)
            &&& f.color == s.turn_by
        } by {
            assert(rest[j] == figs[j]);
        }
        lemma_figures_moves_of_side(s, rest);
        let (f, p) = figs.last();
        assert(figs.last() == figs[figs.len() - 1]);
        crate::figure::functions::reachable::lemma_reachable_moves_of_fit(s, f.fig_type, p);
        let a = reachable_moves_of_figures(s, rest);
        let b = spec_reachable_moves_of(s, f.fig_type, p);
        assert forall|k: int| 0 <= k < (a + b).len() implies #[trigger] move_of_side(s.cells, s.turn_by, (a + b)[k]) by {
            if k < a.len() {
                assert((a + b)[k] == a[k]);
            } else {
                assert((a + b)[k] == b[k - a.len()]);
                assert(crate::figure::functions::reachable::move_fits(s.cells, s.turn_by, p, b[k - a.len()]));
            }
        }
    }
}

/// Every move the side to move can reach starts on a field holding one of its figures and ends
/// on a field of the board that holds none of them.
pub proof fn lemma_reachable_moves_of_side(s: GameStateModel)
    requires
        s.cells.len() == 64,
    ensures
        forall|k: int| 0 <= k < s.reachable_moves().len() ==> #[trigger] move_of_side(
            s.cells,
            s.turn_by,
            s.reachable_moves()[k],
        ),
{
    crate::game::board::lemma_figures_of_color_entries(s.cells, s.turn_by);
    lemma_figures_moves_of_side(s, figures_of_color(s.cells, s.turn_by));
}

/**
* returns if a figure gets caught by this move.
*/
fn do_normal_move(new_board: &mut Board, from: Position, to: Position) -> (r: bool)
    requires
        from.wf(),
        to.wf(),
        old(new_board)@[from.index as int] is Some,
    ensures
        final(new_board)@ == normal_cells(old(new_board)@, from, to),
        r == (from != to && old(new_board)@[to.index as int] is Some),
{
    let moving_figure = match new_board.get_figure(from) {
        Some(f) => f,
        None => Figure { fig_type: FigureType::Pawn, color: Color::White },
    };
    proof {
        lemma_board_len(*new_board);
        crate::base::position::lemma_position_eq_by_index(from, to);
    }
    new_board.clear_field(from);
    new_board.set_figure(to, moving_figure)
}

fn do_promotion_move(new_board: &mut Board, from: Position, to: Position, promoted: Figure) -> (r: bool)
    requires
        from.wf(),
        to.wf(),
        old(new_board)@[from.index as int] is Some,
    ensures
        final(new_board)@ == old(new_board)@.update(from.index as int, None).update(to.index as int, Some(promoted)),
        r == (from != to && old(new_board)@[to.index as int] is Some),
{
    proof {
        lemma_board_len(*new_board);
        crate::base::position::lemma_position_eq_by_index(from, to);
    }
    new_board.clear_field(from);
    new_board.set_figure(to, promoted)
}

/// The fields of a castling move; see `GameState::castling_fields`.
fn castling_fields_of(m: Move) -> (r: (Position, Position, Position))
    ensures
        r == GameState::castling_fields(m),
        r.0.wf(),
        r.1.wf(),
        r.2.wf(),
{
    let from = m.from();
    let to = m.to();
    let move_type = m.move_type();
    let row = from.row;
    if move_type == MoveType::Castling(CastlingType::KingSide) {
        (Position::new_unchecked(6, row), Position::new_unchecked(7, row), Position::new_unchecked(5, row))
    } else if move_type == MoveType::Castling(CastlingType::QueenSide) {
        (Position::new_unchecked(2, row), Position::new_unchecked(0, row), Position::new_unchecked(3, row))
    } else if to.column > from.column {
        (Position::new_unchecked(6, row), to, Position::new_unchecked(5, row))
    } else {
        (Position::new_unchecked(2, row), to, Position::new_unchecked(3, row))
    }
}

/**
* returns - the new position of the king
*/
fn do_castling_move(new_board: &mut Board, next_move: Move) -> (r: Position)
    requires
        old(new_board)@[next_move.spec_from().index as int] is Some,
        old(new_board)@[GameState::castling_fields(next_move).1.index as int] is Some,
        GameState::castling_fields(next_move).1 != next_move.spec_from(),
    ensures
        r == GameState::castling_fields(next_move).0,
        final(new_board)@ == normal_cells(
            normal_cells(old(new_board)@, next_move.spec_from(), GameState::castling_fields(next_move).0),
            GameState::castling_fields(next_move).1,
            GameState::castling_fields(next_move).2,
        ),
{
    let from = next_move.from();
    let (king_to, rook_from, rook_to) = castling_fields_of(next_move);
    // move the king
    // (this simplified approach only works in classical chess, not in all chess960 positions)
    proof {
        lemma_board_len(*new_board);
    }
    do_normal_move(new_board, from, king_to);
    proof {
        crate::base::position::lemma_position_eq_by_index(rook_from, king_to);
        crate::base::position::lemma_position_eq_by_index(rook_from, from);
    }
    // move the rook
    do_normal_move(new_board, rook_from, rook_to);
    king_to
}

fn do_en_passant_move(new_board: &mut Board, next_move: Move)
    requires
        old(new_board)@[next_move.spec_from().index as int] is Some,
    ensures
        final(new_board)@ == normal_cells(old(new_board)@, next_move.spec_from(), next_move.spec_to()).update(
            GameState::taken_pawn_pos(next_move).index as int,
            None,
        ),
{
    let from = next_move.from();
    let to = next_move.to();
    do_normal_move(new_board, from, to);
    let double_stepped_pawn_pos = Position::new_unchecked(to.column, from.row);
    new_board.clear_field(double_stepped_pawn_pos)
}

/// The king of `color` stands on exactly one field after the move, the field `king_pos_after`
/// names.
pub proof fn lemma_king_after(s: GameState, m: Move, color: Color)
    requires
        s.wf(),
        s.kings_unique(),
        s.can_do_move(m),
        !s.rook_on_king_target(m),
    ensures
        s.king_pos_after(m, color).wf(),
        cell_at(s.cells_after(m), s.king_pos_after(m, color)) == Some(king_of(color)),
        count_where(s.cells_after(m), of_kind(FigureType::King, color)) == 1,
{
    let cells = s.board@;
    let from = m.spec_from();
    let to = m.spec_to();
    let k = s.king_pos_of(color);
    let f = of_kind(FigureType::King, color);
    let fig = s.moving_figure(m);
    lemma_board_len(s.board);
    crate::base::a_move::lemma_move_fields_wf(m);
    assert(count_where(cells, f) == 1);
    assert(cells[k.index as int] == Some(king_of(color)));
    // A field holding this king is the king's field.
    assert forall|p: Position| p.wf() && #[trigger] f(cells[p.index as int]) implies p == k by {
        lemma_unique_king(cells, p.index as int, k.index as int, color);
        lemma_position_eq_by_index(p, k);
    }
    assert(!f(cells[to.index as int])) by {
        if f(cells[to.index as int]) {
            assert(to == k);
        }
    }
    if s.is_castling(m) {
        let (king_to, rook_from, rook_to) = GameState::castling_fields(m);
        let c1 = normal_cells(cells, from, king_to);
        assert(!f(cells[king_to.index as int])) by {
            if f(cells[king_to.index as int]) {
                assert(is_king_of(cell_at(cells, king_to)));
            }
        }
        assert(!f(cells[rook_from.index as int]));
        lemma_normal_move_count(cells, from, king_to, f);
        lemma_position_eq_by_index(rook_to, from);
        lemma_position_eq_by_index(rook_to, king_to);
        lemma_position_eq_by_index(rook_from, king_to);
        assert(!f(c1[rook_to.index as int])) by {
            if f(cells[rook_to.index as int]) {
                assert(is_king_of(cell_at(cells, rook_to)));
            }
        }
        lemma_normal_move_count(c1, rook_from, rook_to, f);
        if fig.fig_type == FigureType::King && fig.color == color {
            assert(f(cells[from.index as int]));
            assert(from == k);
        } else {
            lemma_position_eq_by_index(k, from);
            lemma_position_eq_by_index(k, king_to);
            lemma_position_eq_by_index(k, rook_from);
            lemma_position_eq_by_index(k, rook_to);
            assert(k != king_to);
            assert(k != rook_to);
        }
    } else if s.is_en_passant(m) {
        let tp = GameState::taken_pawn_pos(m);
        let nc = normal_cells(cells, from, to);
        lemma_normal_move_count(cells, from, to, f);
        lemma_position_eq_by_index(k, from);
        lemma_position_eq_by_index(k, to);
        assert(nc[k.index as int] == cells[k.index as int]);
        assert(!f(nc[tp.index as int])) by {
            if f(nc[tp.index as int]) {
                assert(is_king_of(cell_at(nc, tp)));
            }
        }
        lemma_count_update(nc, tp.index as int, None, f);
    } else if s.promotion(m) is Some {
        let pt = s.promotion(m)->0;
        let promoted = Some(Figure { fig_type: pt.spec_figure_type(), color: fig.color });
        let c1 = cells.update(from.index as int, None);
        lemma_count_update(cells, from.index as int, None, f);
        lemma_count_update(c1, to.index as int, promoted, f);
        lemma_position_eq_by_index(k, from);
        lemma_position_eq_by_index(k, to);
        lemma_position_eq_by_index(from, to);
    } else {
        lemma_normal_move_count(cells, from, to, f);
        if !(fig.fig_type == FigureType::King && fig.color == color) {
            lemma_position_eq_by_index(k, from);
            lemma_position_eq_by_index(k, to);
        }
    }
}

/// No move raises the number of figures of a color.
pub proof fn lemma_color_count_after(s: GameState, m: Move, color: Color)
    requires
        s.wf(),
        s.can_do_move(m),
    ensures
        count_where(s.cells_after(m), of_color(color)) <= count_where(s.board@, of_color(color)),
{
    let cells = s.board@;
    let from = m.spec_from();
    let to = m.spec_to();
    let f = of_color(color);
    lemma_board_len(s.board);
    crate::base::a_move::lemma_move_fields_wf(m);
    if s.is_castling(m) {
        let (king_to, rook_from, rook_to) = GameState::castling_fields(m);
        lemma_normal_move_count(cells, from, king_to, f);
        lemma_normal_move_count(normal_cells(cells, from, king_to), rook_from, rook_to, f);
    } else if s.is_en_passant(m) {
        let nc = normal_cells(cells, from, to);
        lemma_normal_move_count(cells, from, to, f);
        lemma_count_update(nc, GameState::taken_pawn_pos(m).index as int, None, f);
    } else if s.promotion(m) is Some {
        let fig = s.moving_figure(m);
        let pt = s.promotion(m)->0;
        let promoted = Some(Figure { fig_type: pt.spec_figure_type(), color: fig.color });
        let c1 = cells.update(from.index as int, None);
        lemma_count_update(cells, from.index as int, None, f);
        lemma_count_update(c1, to.index as int, promoted, f);
    } else {
        lemma_normal_move_count(cells, from, to, f);
    }
}

/// The field `king_pos_after` names lies on the board.
proof fn lemma_king_pos_after_wf(s: GameState, m: Move, color: Color)
    requires
        s.wf(),
    ensures
        s.king_pos_after(m, color).wf(),
{
    crate::base::a_move::lemma_move_fields_wf(m);
}

/// After a move the king of `color` stands on the field `king_pos_after` names.
pub proof fn lemma_king_field_after(s: GameState, m: Move, color: Color)
    requires
        s.wf(),
        s.can_do_move(m),
        !s.rook_on_king_target(m),
    ensures
        s.king_pos_after(m, color).wf(),
        cell_at(s.cells_after(m), s.king_pos_after(m, color)) == Some(king_of(color)),
{
    let cells = s.board@;
    let from = m.spec_from();
    let to = m.spec_to();
    let k = s.king_pos_of(color);
    let fig = s.moving_figure(m);
    lemma_board_len(s.board);
    crate::base::a_move::lemma_move_fields_wf(m);
    let moves_king = fig.fig_type == FigureType::King && fig.color == color;
    if !moves_king {
        lemma_position_eq_by_index(k, from);
        lemma_position_eq_by_index(k, to);
        assert(k != from);
        assert(k != to);
    }
    if s.is_castling(m) {
        let (king_to, rook_from, rook_to) = GameState::castling_fields(m);
        let c1 = normal_cells(cells, from, king_to);
        lemma_position_eq_by_index(rook_from, king_to);
        lemma_position_eq_by_index(rook_to, king_to);
        lemma_position_eq_by_index(rook_from, from);
        if moves_king {
            assert(c1[king_to.index as int] == Some(king_of(color)));
        } else {
            lemma_position_eq_by_index(k, king_to);
            lemma_position_eq_by_index(k, rook_from);
            lemma_position_eq_by_index(k, rook_to);
            assert(k != king_to);
            assert(k != rook_to);
            assert(k != rook_from);
            assert(c1[k.index as int] == cells[k.index as int]);
        }
    } else if s.is_en_passant(m) {
        let tp = GameState::taken_pawn_pos(m);
        let nc = normal_cells(cells, from, to);
        lemma_position_eq_by_index(k, tp);
        assert(nc[k.index as int] == cells[k.index as int]);
        assert(k != tp);
    } else if s.promotion(m) is Some {
        lemma_position_eq_by_index(from, to);
    }
}

/// A move keeps a game state well formed, and leaves each side with exactly one king when
/// each side had exactly one.
pub proof fn lemma_do_move_wf(s: GameState, m: Move)
    requires
        s.wf(),
        s.can_do_move(m),
    ensures
        s.king_pos_after(m, Color::White).wf(),
        s.king_pos_after(m, Color::Black).wf(),
        !s.rook_on_king_target(m) ==> cell_at(s.cells_after(m), s.king_pos_after(m, Color::White)) == Some(king_of(Color::White)),
        !s.rook_on_king_target(m) ==> cell_at(s.cells_after(m), s.king_pos_after(m, Color::Black)) == Some(king_of(Color::Black)),
        !s.rook_on_king_target(m) && s.kings_unique() ==> count_where(s.cells_after(m), of_kind(FigureType::King, Color::White)) == 1,
        !s.rook_on_king_target(m) && s.kings_unique() ==> count_where(s.cells_after(m), of_kind(FigureType::King, Color::Black)) == 1,
        s.en_passant_after(m) matches Some(p) ==> p.wf(),
{
    lemma_king_pos_after_wf(s, m, Color::White);
    lemma_king_pos_after_wf(s, m, Color::Black);
    if !s.rook_on_king_target(m) {
        lemma_king_field_after(s, m, Color::White);
        lemma_king_field_after(s, m, Color::Black);
    }
    if !s.rook_on_king_target(m) && s.kings_unique() {
        lemma_king_after(s, m, Color::White);
        lemma_king_after(s, m, Color::Black);
    }
    crate::base::a_move::lemma_move_fields_wf(m);
}
} // verus!
