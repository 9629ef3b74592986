use vstd::prelude::*;
use crate::base::{Color, Position};
use crate::base::a_move::Move;
use crate::figure::{Figure, FigureType};
use crate::game::Board;
use crate::game::board::{lemma_board_len, spec_classic_cells};
use crate::game::game_state::{black_king_starting_position, normal_cells, white_king_starting_position, black_king_starting_pos, white_king_starting_pos};

verus! {

/// Which rook a rook is: one that started on the queen's or the king's side, or one a pawn was
/// promoted to.
#[derive(Debug, Copy, Clone, PartialEq, Eq, Structural)]
pub enum RookType {
    QueenSide,
    KingSide,
    Promoted,
}

/// What a match state says: the board, whose turn it is, where the kings stand, the en-passant
/// field, the four castling rights, and where each of the four rooks a game starts with stands
/// (if it is still on the board).
pub struct MatchModel {
    pub cells: Seq<Option<Figure>>,
    pub next_turn_by: Color,
    pub white_king: Position,
    pub black_king: Position,
    pub en_passant: Option<Position>,
    pub white_queen_side: bool,
    pub white_king_side: bool,
    pub black_queen_side: bool,
    pub black_king_side: bool,
    pub white_queen_side_rook: Option<Position>,
    pub white_king_side_rook: Option<Position>,
    pub black_queen_side_rook: Option<Position>,
    pub black_king_side_rook: Option<Position>,
}

/// Where a rook stands after the figure on `a` moved to `b`: it moves along if it stood on `a`,
/// and is gone if it stood on `b`.
pub open spec fn rook_after_move(r: Option<Position>, a: Position, b: Position) -> Option<Position> {
    if r == Some(a) {
        Some(b)
    } else if r == Some(b) {
        None
    } else {
        r
    }
}

/// Where a rook stands after the field `p` was cleared.
pub open spec fn rook_after_clear(r: Option<Position>, p: Position) -> Option<Position> {
    if r == Some(p) {
        None
    } else {
        r
    }
}

/// The pawn moves a match state tells apart.
pub enum PawnMoveType {
    SingleStep,
    DoubleStep,
    EnPassantIntercept,
}

impl MatchModel {
    /// The state after the figure on `a` moved to `b`.
    pub open spec fn moved(self, a: Position, b: Position) -> MatchModel {
        MatchModel {
            cells: normal_cells(self.cells, a, b),
            white_queen_side_rook: rook_after_move(self.white_queen_side_rook, a, b),
            white_king_side_rook: rook_after_move(self.white_king_side_rook, a, b),
            black_queen_side_rook: rook_after_move(self.black_queen_side_rook, a, b),
            black_king_side_rook: rook_after_move(self.black_king_side_rook, a, b),
            ..self
        }
    }

    /// The state after the field `p` was cleared.
    pub open spec fn cleared(self, p: Position) -> MatchModel {
        MatchModel {
            cells: self.cells.update(p.index as int, None),
            white_queen_side_rook: rook_after_clear(self.white_queen_side_rook, p),
            white_king_side_rook: rook_after_clear(self.white_king_side_rook, p),
            black_queen_side_rook: rook_after_clear(self.black_queen_side_rook, p),
            black_king_side_rook: rook_after_clear(self.black_king_side_rook, p),
            ..self
        }
    }

    /// The type of the rook of `color` on `pos`.
    pub open spec fn rook_type_at(self, pos: Position, color: Color) -> RookType {
        let (queen_side, king_side) = match color {
            Color::White => (self.white_queen_side_rook, self.white_king_side_rook),
            Color::Black => (self.black_queen_side_rook, self.black_king_side_rook),
        };
        if queen_side == Some(pos) {
            RookType::QueenSide
        } else if king_side == Some(pos) {
            RookType::KingSide
        } else {
            RookType::Promoted
        }
    }

    pub open spec fn pawn_move_type(self, m: Move) -> PawnMoveType {
        if crate::base::position::abs(m.spec_from().row - m.spec_to().row) == 2 {
            PawnMoveType::DoubleStep
        } else if self.en_passant == Some(m.spec_to()) {
            PawnMoveType::EnPassantIntercept
        } else {
            PawnMoveType::SingleStep
        }
    }

    /// A king moving onto a figure of the side to move castles: the king goes to the g or c
    /// file (the side the figure is on), then the figure on the end field to the f or d file.
    pub open spec fn is_castling(self, m: Move) -> bool {
        self.cells[m.spec_to().index as int] matches Some(f) && f.color == self.next_turn_by
    }

    pub open spec fn castling_fields(m: Move) -> (Position, Position) {
        let row = m.spec_from().row as int;
        if m.spec_to().column > m.spec_from().column {
            (Position::spec_at(6, row), Position::spec_at(5, row))
        } else {
            (Position::spec_at(2, row), Position::spec_at(3, row))
        }
    }

    /// The state after the move, and before the turn passes: moving a king takes both castling
    /// rights of its color, moving a rook that started on one side the right of that side; a
    /// pawn's double step leaves the field it passed as en-passant field, and taking en-passant
    /// clears the field of the taken pawn.
    pub open spec fn board_after(self, m: Move) -> MatchModel {
        let from = m.spec_from();
        let to = m.spec_to();
        let fig = self.cells[from.index as int]->0;
        let base = MatchModel { en_passant: None, ..self };
        match fig.fig_type {
            FigureType::King => {
                let (king_pos, moved) = if self.is_castling(m) {
                    let (king_to, rook_to) = Self::castling_fields(m);
                    (king_to, base.moved(from, king_to).moved(to, rook_to))
                } else {
                    (to, base.moved(from, to))
                };
                match fig.color {
                    Color::White => MatchModel {
                        white_king: king_pos,
                        white_queen_side: false,
                        white_king_side: false,
                        ..moved
                    },
                    Color::Black => MatchModel {
                        black_king: king_pos,
                        black_queen_side: false,
                        black_king_side: false,
                        ..moved
                    },
                }
            },
            FigureType::Rook => {
                let moved = base.moved(from, to);
                match (self.rook_type_at(from, fig.color), fig.color) {
                    (RookType::QueenSide, Color::White) => MatchModel { white_queen_side: false, ..moved },
                    (RookType::QueenSide, Color::Black) => MatchModel { black_queen_side: false, ..moved },
                    (RookType::KingSide, Color::White) => MatchModel { white_king_side: false, ..moved },
                    (RookType::KingSide, Color::Black) => MatchModel { black_king_side: false, ..moved },
                    (RookType::Promoted, _) => moved,
                }
            },
            FigureType::Pawn => match self.pawn_move_type(m) {
                PawnMoveType::SingleStep => base.moved(from, to),
                PawnMoveType::DoubleStep => MatchModel {
                    en_passant: Some(Position::spec_at(to.column as int, (from.row + to.row) / 2)),
                    ..base.moved(from, to)
                },
                PawnMoveType::EnPassantIntercept => base.moved(from, to).cleared(
                    Position::spec_at(to.column as int, from.row as int),
                ),
            },
            _ => base.moved(from, to),
        }
    }

    /// The state after the move.
    pub open spec fn after(self, m: Move) -> MatchModel {
        MatchModel { next_turn_by: self.next_turn_by.spec_toggle(), ..self.board_after(m) }
    }
}

/// The state of a match: the board, whose turn it is, where the kings stand, the en-passant
/// field, which castlings are still possible, and where the rooks the game started with stand.
#[derive(Debug)]
pub struct MatchState {
    board: Board,
    next_turn_by: Color,
    white_king_pos: Position,
    black_king_pos: Position,
    en_passant_intercept_pos: Option<Position>,
    is_white_queen_side_castling_possible: bool,
    is_white_king_side_castling_possible: bool,
    is_black_queen_side_castling_possible: bool,
    is_black_king_side_castling_possible: bool,
    white_queen_side_rook_pos: Option<Position>,
    white_king_side_rook_pos: Option<Position>,
    black_queen_side_rook_pos: Option<Position>,
    black_king_side_rook_pos: Option<Position>,
}

/// The rooks of a classic start: a1, h1, a8 and h8.
pub open spec fn classic_match() -> MatchModel {
    MatchModel {
        cells: spec_classic_cells(),
        next_turn_by: Color::White,
        white_king: white_king_starting_pos(),
        black_king: black_king_starting_pos(),
        en_passant: None,
        white_queen_side: true,
        white_king_side: true,
        black_queen_side: true,
        black_king_side: true,
        white_queen_side_rook: Some(Position::spec_at(0, 0)),
        white_king_side_rook: Some(Position::spec_at(7, 0)),
        black_queen_side_rook: Some(Position::spec_at(0, 7)),
        black_king_side_rook: Some(Position::spec_at(7, 7)),
    }
}

fn rook_after_move_of(r: Option<Position>, a: Position, b: Position) -> (n: Option<Position>)
    ensures
        n == rook_after_move(r, a, b),
{
    match r {
        Some(p) => if p == a {
            Some(b)
        } else if p == b {
            None
        } else {
            r
        },
        None => None,
    }
}

fn rook_after_clear_of(r: Option<Position>, p: Position) -> (n: Option<Position>)
    ensures
        n == rook_after_clear(r, p),
{
    match r {
        Some(q) => if q == p {
            None
        } else {
            r
        },
        None => None,
    }
}

impl MatchState {
    pub closed spec fn model(self) -> MatchModel {
        MatchModel {
            cells: self.board@,
            next_turn_by: self.next_turn_by,
            white_king: self.white_king_pos,
            black_king: self.black_king_pos,
            en_passant: self.en_passant_intercept_pos,
            white_queen_side: self.is_white_queen_side_castling_possible,
            white_king_side: self.is_white_king_side_castling_possible,
            black_queen_side: self.is_black_queen_side_castling_possible,
            black_king_side: self.is_black_king_side_castling_possible,
            white_queen_side_rook: self.white_queen_side_rook_pos,
            white_king_side_rook: self.white_king_side_rook_pos,
            black_queen_side_rook: self.black_queen_side_rook_pos,
            black_king_side_rook: self.black_king_side_rook_pos,
        }
    }

    /// Whether the fields this state names lie on the board.
    pub closed spec fn fields_wf(self) -> bool {
        &&& self.en_passant_intercept_pos matches Some(p) ==> p.wf()
        &&& self.white_queen_side_rook_pos matches Some(p) ==> p.wf()
        &&& self.white_king_side_rook_pos matches Some(p) ==> p.wf()
        &&& self.black_queen_side_rook_pos matches Some(p) ==> p.wf()
        &&& self.black_king_side_rook_pos matches Some(p) ==> p.wf()
    }

    /// The state at the start of a classic game.
    pub fn new() -> (r: MatchState)
        ensures
            r.model() == classic_match(),
            r.fields_wf(),
    {
        MatchState {
            board: Board::classic(),
            next_turn_by: Color::White,
            white_king_pos: white_king_starting_position(),
            black_king_pos: black_king_starting_position(),
            en_passant_intercept_pos: None,
            is_white_queen_side_castling_possible: true,
            is_white_king_side_castling_possible: true,
            is_black_queen_side_castling_possible: true,
            is_black_king_side_castling_possible: true,
            white_queen_side_rook_pos: Some(Position::new_unchecked(0, 0)),
            white_king_side_rook_pos: Some(Position::new_unchecked(7, 0)),
            black_queen_side_rook_pos: Some(Position::new_unchecked(0, 7)),
            black_king_side_rook_pos: Some(Position::new_unchecked(7, 7)),
        }
    }

    /// Moves what stands on `from` to `to`, and the rooks with it.
    fn do_normal_move(&mut self, from: Position, to: Position)
        requires
            from.wf(),
            to.wf(),
        ensures
            final(self).model() == old(self).model().moved(from, to),
            old(self).fields_wf() ==> final(self).fields_wf(),
    {
        proof {
            lemma_board_len(self.board);
            crate::base::position::lemma_position_eq_by_index(from, to);
        }
        let mut board = self.board.clone();
        match board.get_figure(from) {
            Some(moving_figure) => {
                board.clear_field(from);
                board.set_figure(to, moving_figure);
            },
            None => {
                if !board.is_empty(to) {
                    board.clear_field(to);
                }
            },
        }
        assert(board@ =~= normal_cells(self.board@, from, to));
        self.board = board;
        self.white_queen_side_rook_pos = rook_after_move_of(self.white_queen_side_rook_pos, from, to);
        self.white_king_side_rook_pos = rook_after_move_of(self.white_king_side_rook_pos, from, to);
        self.black_queen_side_rook_pos = rook_after_move_of(self.black_queen_side_rook_pos, from, to);
        self.black_king_side_rook_pos = rook_after_move_of(self.black_king_side_rook_pos, from, to);
    }

    /// Clears the field, and forgets a rook that stood there.
    fn clear(&mut self, pos: Position)
        requires
            pos.wf(),
        ensures
            final(self).model() == old(self).model().cleared(pos),
            old(self).fields_wf() ==> final(self).fields_wf(),
    {
        proof {
            lemma_board_len(self.board);
        }
        let mut board = self.board.clone();
        if !board.is_empty(pos) {
            board.clear_field(pos);
        }
        assert(board@ =~= self.board@.update(pos.index as int, None));
        self.board = board;
        self.white_queen_side_rook_pos = rook_after_clear_of(self.white_queen_side_rook_pos, pos);
        self.white_king_side_rook_pos = rook_after_clear_of(self.white_king_side_rook_pos, pos);
        self.black_queen_side_rook_pos = rook_after_clear_of(self.black_queen_side_rook_pos, pos);
        self.black_king_side_rook_pos = rook_after_clear_of(self.black_king_side_rook_pos, pos);
    }

    fn rook_type_at(&self, pos: Position, color: Color) -> (r: RookType)
        ensures
            r == self.model().rook_type_at(pos, color),
    {
        let (queen_side, king_side) = match color {
            Color::White => (self.white_queen_side_rook_pos, self.white_king_side_rook_pos),
            Color::Black => (self.black_queen_side_rook_pos, self.black_king_side_rook_pos),
        };
        if queen_side == Some(pos) {
            RookType::QueenSide
        } else if king_side == Some(pos) {
            RookType::KingSide
        } else {
            RookType::Promoted
        }
    }

    fn compute_pawn_move_type(&self, pawn_move: Move) -> (r: PawnMoveType)
        ensures
            r == self.model().pawn_move_type(pawn_move),
    {
        if pawn_move.from().get_row_distance(pawn_move.to()) == 2 {
            return PawnMoveType::DoubleStep;
        }
        if let Some(en_passant_pos) = self.en_passant_intercept_pos {
            if pawn_move.to() == en_passant_pos {
                return PawnMoveType::EnPassantIntercept;
            }
        }
        PawnMoveType::SingleStep
    }

    /// The state after the move. The move must not end on a king's field and must start on a
    /// figure.
    pub fn do_move(&self, next_move: Move) -> (r: MatchState)
        requires
            self.fields_wf(),
            next_move.spec_to() != self.model().white_king,
            next_move.spec_to() != self.model().black_king,
            self.model().cells[next_move.spec_from().index as int] is Some,
        ensures
            r.model() == self.model().after(next_move),
            r.fields_wf(),
    {
        let from = next_move.from();
        let to = next_move.to();
        proof {
            lemma_board_len(self.board);
        }
        let moving_figure: Figure = match self.board.get_figure(from) {
            Some(f) => f,
            None => Figure { fig_type: FigureType::Pawn, color: Color::White },
        };
        let mut next = MatchState {
            board: self.board.clone(),
            next_turn_by: self.next_turn_by,
            white_king_pos: self.white_king_pos,
            black_king_pos: self.black_king_pos,
            en_passant_intercept_pos: None,
            is_white_queen_side_castling_possible: self.is_white_queen_side_castling_possible,
            is_white_king_side_castling_possible: self.is_white_king_side_castling_possible,
            is_black_queen_side_castling_possible: self.is_black_queen_side_castling_possible,
            is_black_king_side_castling_possible: self.is_black_king_side_castling_possible,
            white_queen_side_rook_pos: self.white_queen_side_rook_pos,
            white_king_side_rook_pos: self.white_king_side_rook_pos,
            black_queen_side_rook_pos: self.black_queen_side_rook_pos,
            black_king_side_rook_pos: self.black_king_side_rook_pos,
        };
        match moving_figure.fig_type {
            FigureType::King => {
                let is_castling = if let Some(figure_to_be_caught) = self.board.get_figure(to) {
                    figure_to_be_caught.color == self.next_turn_by
                } else {
                    false
                };
                let new_king_pos: Position;
                if is_castling {
                    let castling_row = from.row;
                    let rook_to: Position;
                    if to.column > from.column {
                        new_king_pos = Position::new_unchecked(6, castling_row);
                        rook_to = Position::new_unchecked(5, castling_row);
                    } else {
                        new_king_pos = Position::new_unchecked(2, castling_row);
                        rook_to = Position::new_unchecked(3, castling_row);
                    }
                    // move the king
                    // (this simplified approach only works in classical chess, not in all chess960 positions)
                    next.do_normal_move(from, new_king_pos);
                    // move the rook
                    next.do_normal_move(to, rook_to);
                } else {
                    next.do_normal_move(from, to);
                    new_king_pos = to;
                }
                match moving_figure.color {
                    Color::White => {
                        next.white_king_pos = new_king_pos;
                        next.is_white_queen_side_castling_possible = false;
                        next.is_white_king_side_castling_possible = false;
                    },
                    Color::Black => {
                        next.black_king_pos = new_king_pos;
                        next.is_black_queen_side_castling_possible = false;
                        next.is_black_king_side_castling_possible = false;
                    },
                }
            },
            FigureType::Rook => {
                let rook_type = self.rook_type_at(from, moving_figure.color);
                next.do_normal_move(from, to);
                match rook_type {
                    RookType::QueenSide => match moving_figure.color {
                        Color::White => next.is_white_queen_side_castling_possible = false,
                        Color::Black => next.is_black_queen_side_castling_possible = false,
                    },
                    RookType::KingSide => match moving_figure.color {
                        Color::White => next.is_white_king_side_castling_possible = false,
                        Color::Black => next.is_black_king_side_castling_possible = false,
                    },
                    RookType::Promoted => {},
                }
            },
            FigureType::Pawn => {
                match self.compute_pawn_move_type(next_move) {
                    PawnMoveType::SingleStep => {
                        next.do_normal_move(from, to);
                    },
                    PawnMoveType::DoubleStep => {
                        next.do_normal_move(from, to);
                        next.en_passant_intercept_pos = Some(
                            Position::new_unchecked(to.column, (from.row + to.row) / 2),
                        );
                    },
                    PawnMoveType::EnPassantIntercept => {
                        next.do_normal_move(from, to);
                        next.clear(Position::new_unchecked(to.column, from.row));
                    },
                }
            },
            _ => {
                next.do_normal_move(from, to);
            },
        }
        next.next_turn_by = self.next_turn_by.toggle();
        next
    }
}

} // verus!
