use vstd::prelude::*;
use crate::base::{ChessError, ErrorKind, Color, Direction};
use crate::base::errors::chess_error;
use crate::base::text::push_char;
use crate::game::Board;
use crate::game::board::{
    FieldContent, knight_count_from, knight_jump, knight_targets_from, lemma_steps_left, ray_targets,
    spec_content_type, steps_left,
};

verus! {

pub open spec fn abs(x: int) -> int {
    if x < 0 { -x } else { x }
}

/// Whether the column/row pair lies on the 8x8 board.
pub open spec fn on_board(c: int, r: int) -> bool {
    0 <= c < 8 && 0 <= r < 8
}

/// A field of the board: its column (0 = a), its row (0 = 1) and its index `row * 8 + column`.
#[derive(Debug, Copy, Clone, PartialEq, Eq, Structural, Hash)]
pub struct Position {
    pub column: i8,
    pub row: i8,
    pub index: usize,
}

/// The position a two-character code like "e4" names, if it names one.
pub open spec fn spec_parse_position(s: Seq<char>) -> Option<Position> {
    if s.len() == 2 && 'a' <= s[0] <= 'h' && '1' <= s[1] <= '8' {
        Some(Position::spec_at(s[0] as int - 'a' as int, s[1] as int - '1' as int))
    } else {
        None
    }
}

impl Position {
    /// A position is well formed when it lies on the board and its index matches column and row.
    pub open spec fn wf(self) -> bool {
        on_board(self.column as int, self.row as int) && self.index == self.row * 8 + self.column
    }

    pub open spec fn spec_at(c: int, r: int) -> Position {
        Position { column: c as i8, row: r as i8, index: (r * 8 + c) as usize }
    }

    pub open spec fn spec_from_index(i: int) -> Position {
        Self::spec_at(i % 8, i / 8)
    }

    pub open spec fn spec_jump(self, dc: int, dr: int) -> Option<Position> {
        if on_board(self.column + dc, self.row + dr) {
            Some(Self::spec_at(self.column + dc, self.row + dr))
        } else {
            None
        }
    }

    /// The neighbouring field in the given direction, if it lies on the board.
    pub open spec fn spec_step(self, d: Direction) -> Option<Position> {
        self.spec_jump(d.dc(), d.dr())
    }

    pub open spec fn spec_toggle_row(self) -> Position {
        Self::spec_at(self.column as int, 7 - self.row)
    }

    pub open spec fn spec_is_on_ground_row(self, color: Color) -> bool {
        match color {
            Color::Black => self.row == 7,
            Color::White => self.row == 0,
        }
    }

    /// The code of this position, like "e4".
    pub open spec fn spec_code(self) -> Seq<char> {
        seq![(self.column + 97) as char, (self.row + 49) as char]
    }

    /// The direction leading from `self` to `to` along a rank, file or diagonal, if any.
    pub open spec fn spec_get_direction(self, to: Position) -> Option<Direction> {
        let dc = to.column - self.column;
        let dr = to.row - self.row;
        if dc == 0 && dr == 0 {
            None
        } else if dc == 0 {
            Some(if dr > 0 { Direction::Up } else { Direction::Down })
        } else if dr == 0 {
            Some(if dc > 0 { Direction::Right } else { Direction::Left })
        } else if dc == dr {
            Some(if dc > 0 { Direction::UpRight } else { Direction::DownLeft })
        } else if dc == -dr {
            Some(if dc > 0 { Direction::DownRight } else { Direction::UpLeft })
        } else {
            None
        }
    }

    /// Whether a knight standing on `self` attacks `to`.
    pub open spec fn spec_is_reachable_by_knight(self, to: Position) -> bool {
        let dc = abs(to.column - self.column);
        let dr = abs(to.row - self.row);
        (dc == 1 && dr == 2) || (dc == 2 && dr == 1)
    }

    pub fn new_checked(column: i8, row: i8) -> (r: Option<Position>)
        ensures
            r == (if on_board(column as int, row as int) {
                Some(Self::spec_at(column as int, row as int))
            } else {
                None
            }),
            r matches Some(p) ==> p.wf(),
    {
        if !(0 <= column && column < 8 && 0 <= row && row < 8) {
            return None;
        }
        Some(Position::new_unchecked(column, row))
    }

    pub fn new_unchecked(column: i8, row: i8) -> (r: Position)
        requires
            on_board(column as int, row as int),
        ensures
            r == Self::spec_at(column as int, row as int),
            r.wf(),
    {
        Position { column, row, index: ((row * 8) + column) as usize }
    }

    pub fn from_index_unchecked(index: usize) -> (r: Position)
        requires
            index < 64,
        ensures
            r == Self::spec_from_index(index as int),
            r.wf(),
            r.index == index,
    {
        let i = index as i8;
        let column = i % 8;
        let row = i / 8;
        Position { column, row, index: ((row * 8) + column) as usize }
    }

    /// The position a code like "e4" names; the code has to name one.
    pub fn from_code(code: &str) -> (r: Position)
        requires
            spec_parse_position(code@) is Some,
        ensures
            r == spec_parse_position(code@)->0,
            r.wf(),
    {
        match Position::parse(code) {
            Ok(p) => p,
            Err(_) => Position { column: 0, row: 0, index: 0 },
        }
    }

    /// Reads a code like "e4": two characters, a column `a`-`h` and a row `1`-`8`.
    pub fn parse(code: &str) -> (r: Result<Position, ChessError>)
        ensures
            r matches Ok(p) ==> spec_parse_position(code@) == Some(p) && p.wf(),
            r is Err ==> spec_parse_position(code@) is None,
            r matches Err(e) ==> e.kind == ErrorKind::IllegalFormat,
    {
        let cs = crate::base::text::chars_of(code);
        match Position::parse_chars(&cs) {
            Some(p) => Ok(p),
            None => Err(chess_error(ErrorKind::IllegalFormat, "illegal value for Position: ", code)),
        }
    }

    /// The position the characters name, if they name one.
    pub fn parse_chars(cs: &Vec<char>) -> (r: Option<Position>)
        ensures
            r == spec_parse_position(cs@),
            r matches Some(p) ==> p.wf(),
    {
        if cs.len() != 2 {
            return None;
        }
        let c0 = cs[0];
        let c1 = cs[1];
        if !('a' <= c0 && c0 <= 'h' && '1' <= c1 && c1 <= '8') {
            return None;
        }
        let column = ((c0 as u32) - 97) as i8;
        let row = ((c1 as u32) - 49) as i8;
        Some(Position::new_unchecked(column, row))
    }

    pub fn get_row_distance(&self, other: Position) -> (r: i8)
        requires
            self.wf(),
            other.wf(),
        ensures
            r as int == (if self.row >= other.row {
                self.row - other.row
            } else {
                other.row - self.row
            }),
    {
        let d = self.row - other.row;
        if d < 0 {
            -d
        } else {
            d
        }
    }

    pub fn step(&self, direction: Direction) -> (r: Option<Position>)
        requires
            self.wf(),
        ensures
            r == self.spec_step(direction),
            r matches Some(p) ==> p.wf(),
    {
        match direction {
            Direction::Right => {
                let new_column = self.column + 1;
                if new_column == 8 {
                    None
                } else {
                    Some(Position::new_unchecked(new_column, self.row))
                }
            },
            Direction::Left => {
                let new_column = self.column - 1;
                if new_column == -1 {
                    None
                } else {
                    Some(Position::new_unchecked(new_column, self.row))
                }
            },
            Direction::Up => {
                let new_row = self.row + 1;
                if new_row == 8 {
                    None
                } else {
                    Some(Position::new_unchecked(self.column, new_row))
                }
            },
            Direction::Down => {
                let new_row = self.row - 1;
                if new_row == -1 {
                    None
                } else {
                    Some(Position::new_unchecked(self.column, new_row))
                }
            },
            Direction::UpRight => Position::new_checked(self.column + 1, self.row + 1),
            Direction::UpLeft => Position::new_checked(self.column - 1, self.row + 1),
            Direction::DownLeft => Position::new_checked(self.column - 1, self.row - 1),
            Direction::DownRight => Position::new_checked(self.column + 1, self.row - 1),
        }
    }

    pub fn step_unchecked(&self, direction: Direction) -> (r: Position)
        requires
            self.wf(),
            self.spec_step(direction) is Some,
        ensures
            Some(r) == self.spec_step(direction),
            r.wf(),
    {
        match self.step(direction) {
            Some(p) => p,
            None => *self,
        }
    }

    pub fn jump(&self, column_delta: i8, row_delta: i8) -> (r: Option<Position>)
        requires
            self.wf(),
            -120 <= column_delta <= 120,
            -120 <= row_delta <= 120,
        ensures
            r == self.spec_jump(column_delta as int, row_delta as int),
            r matches Some(p) ==> p.wf(),
    {
        Position::new_checked(self.column + column_delta, self.row + row_delta)
    }

    pub fn is_on_ground_row(&self, color: Color) -> (r: bool)
        ensures
            r == self.spec_is_on_ground_row(color),
    {
        match color {
            Color::Black => self.row == 7,
            Color::White => self.row == 0,
        }
    }

    pub fn toggle_row(&self) -> (r: Position)
        requires
            self.wf(),
        ensures
            r == self.spec_toggle_row(),
            r.wf(),
    {
        Position::new_unchecked(self.column, 7 - self.row)
    }

    pub fn get_direction(&self, to: Position) -> (r: Option<Direction>)
        requires
            self.wf(),
            to.wf(),
        ensures
            r == self.spec_get_direction(to),
    {
        let dc = to.column - self.column;
        let dr = to.row - self.row;
        if dc == 0 && dr == 0 {
            None
        } else if dc == 0 {
            Some(if dr > 0 { Direction::Up } else { Direction::Down })
        } else if dr == 0 {
            Some(if dc > 0 { Direction::Right } else { Direction::Left })
        } else if dc == dr {
            Some(if dc > 0 { Direction::UpRight } else { Direction::DownLeft })
        } else if dc == -dr {
            Some(if dc > 0 { Direction::DownRight } else { Direction::UpLeft })
        } else {
            None
        }
    }

    pub fn is_reachable_by_knight(&self, to: Position) -> (r: bool)
        requires
            self.wf(),
            to.wf(),
        ensures
            r == self.spec_is_reachable_by_knight(to),
    {
        let dc = to.column - self.column;
        let dr = to.row - self.row;
        let adc = if dc < 0 { -dc } else { dc };
        let adr = if dr < 0 { -dr } else { dr };
        (adc == 1 && adr == 2) || (adc == 2 && adr == 1)
    }

    /// The code of this position, like "e4".
    pub fn to_string(&self) -> (r: String)
        requires
            self.wf(),
        ensures
            r@ == self.spec_code(),
    {
        let mut s = String::new();
        push_char(&mut s, ((self.column as u8) + 97) as char);
        push_char(&mut s, ((self.row as u8) + 49) as char);
        assert(s@ =~= self.spec_code());
        s
    }
}

impl Position {
    pub fn count_reachable_directed_positions(&self, fig_color: Color, direction: Direction, board: &Board) -> (r: usize)
        requires
            self.wf(),
        ensures
            r == ray_targets(board@, *self, direction, fig_color).len(),
    {
        let mut last_pos = *self;
        let mut counter: usize = 0;
        loop
            invariant
                self.wf(),
                last_pos.wf(),
                counter + ray_targets(board@, last_pos, direction, fig_color).len() == ray_targets(
                    board@,
                    *self,
                    direction,
                    fig_color,
                ).len(),
                counter <= 7 - steps_left(last_pos, direction),
            decreases steps_left(last_pos, direction),
        {
            proof {
                lemma_steps_left(last_pos, direction);
                lemma_steps_left(*self, direction);
            }
            let new_pos = match last_pos.step(direction) {
                None => {
                    return counter;
                },
                Some(pos) => pos,
            };
            match board.get_figure(new_pos) {
                None => {
                    counter += 1;
                },
                Some(figure) => {
                    if figure.color != fig_color {
                        counter += 1;
                    }
                    return counter;
                },
            }
            last_pos = new_pos;
        }
    }

    pub fn count_reachable_knight_positions(&self, fig_color: Color, board: &Board) -> (r: usize)
        requires
            self.wf(),
        ensures
            r == knight_count_from(board@, *self, fig_color, 0),
            r <= 8,
    {
        let mut count: usize = 0;
        let mut k: usize = 8;
        while k > 0
            invariant
                self.wf(),
                k <= 8,
                count == knight_count_from(board@, *self, fig_color, k as int),
                count <= 8 - k,
            decreases k,
        {
            k = k - 1;
            let opt_pos = self.knight_jump_at(k);
            let add: usize = match opt_pos {
                None => 1,
                Some(pos) => match board.get_figure(pos) {
                    None => 1,
                    Some(figure) => if figure.color == fig_color { 0 } else { 1 },
                },
            };
            count = count + add;
        }
        count
    }

    /// The k-th knight jump from this field, if it stays on the board.
    pub fn knight_jump_at(&self, k: usize) -> (r: Option<Position>)
        requires
            self.wf(),
            k < 8,
        ensures
            r == knight_jump(*self, k as int),
            r matches Some(p) ==> p.wf(),
    {
        match k {
            0 => self.jump(2, -1),
            1 => self.jump(2, 1),
            2 => self.jump(-2, -1),
            3 => self.jump(-2, 1),
            4 => self.jump(1, -2),
            5 => self.jump(1, 2),
            6 => self.jump(-1, -2),
            _ => self.jump(-1, 2),
        }
    }

    pub fn reachable_directed_positions<'b>(&self, fig_color: Color, direction: Direction, board: &'b Board) -> (r: DirectedPosIterator<'b>)
        requires
            self.wf(),
        ensures
            r@ == ray_targets(board@, *self, direction, fig_color),
            r.wf(),
    {
        DirectedPosIterator::new(*self, fig_color, direction, board)
    }

    pub fn reachable_knight_positions<'b>(&self, knight_color: Color, board: &'b Board) -> (r: KnightPosIterator<'b>)
        requires
            self.wf(),
        ensures
            r@ == knight_targets_from(board@, *self, knight_color, 0),
            r.wf(),
    {
        KnightPosIterator::new(*self, knight_color, board)
    }
}

/// Walks the fields a figure can move to in one direction.
pub struct DirectedPosIterator<'a> {
    latest_position: Option<Position>,
    direction: Direction,
    moving_fig_color: Color,
    board: &'a Board,
}

impl<'a> View for DirectedPosIterator<'a> {
    type V = Seq<Position>;

    /// The fields still to come.
    closed spec fn view(&self) -> Seq<Position> {
        match self.latest_position {
            None => Seq::empty(),
            Some(p) => ray_targets(self.board@, p, self.direction, self.moving_fig_color),
        }
    }
}

impl<'a> DirectedPosIterator<'a> {
    pub closed spec fn wf(self) -> bool {
        self.latest_position matches Some(p) ==> p.wf()
    }

    pub fn new(fig_pos: Position, fig_color: Color, direction: Direction, board: &'a Board) -> (r: DirectedPosIterator<'a>)
        requires
            fig_pos.wf(),
        ensures
            r@ == ray_targets(board@, fig_pos, direction, fig_color),
            r.wf(),
    {
        DirectedPosIterator { latest_position: Some(fig_pos), direction, moving_fig_color: fig_color, board }
    }

    /// The next field, if any; the iterator moves past it.
    pub fn next(&mut self) -> (r: Option<Position>)
        requires
            old(self).wf(),
        ensures
            final(self).wf(),
            old(self)@.len() == 0 ==> r is None && final(self)@ == old(self)@,
            old(self)@.len() > 0 ==> r == Some(old(self)@[0]) && final(self)@ == old(self)@.drop_first(),
            r matches Some(p) ==> p.wf(),
    {
        let latest_pos = match self.latest_position {
            Some(pos) => pos,
            None => return None,
        };
        proof {
            lemma_steps_left(latest_pos, self.direction);
        }
        let new_pos = match latest_pos.step(self.direction) {
            Some(pos) => pos,
            None => return None,
        };
        let ghost rest = ray_targets(self.board@, new_pos, self.direction, self.moving_fig_color);
        match self.board.get_content_type(new_pos, self.moving_fig_color) {
            FieldContent::OwnFigure => None,
            FieldContent::OpponentFigure => {
                self.latest_position = None;
                assert(seq![new_pos].drop_first() =~= Seq::<Position>::empty());
                Some(new_pos)
            },
            FieldContent::Empty => {
                self.latest_position = Some(new_pos);
                assert((seq![new_pos] + rest).drop_first() =~= rest);
                Some(new_pos)
            },
        }
    }
}

/// Walks the fields a knight can jump to.
pub struct KnightPosIterator<'a> {
    knight_pos: Position,
    knight_color: Color,
    board: &'a Board,
    index: usize,
}

impl<'a> View for KnightPosIterator<'a> {
    type V = Seq<Position>;

    /// The fields still to come.
    closed spec fn view(&self) -> Seq<Position> {
        knight_targets_from(self.board@, self.knight_pos, self.knight_color, self.index as int)
    }
}

impl<'a> KnightPosIterator<'a> {
    pub closed spec fn wf(self) -> bool {
        self.knight_pos.wf() && self.index <= 8
    }

    pub fn new(knight_position: Position, knight_color: Color, board: &'a Board) -> (r: KnightPosIterator<'a>)
        requires
            knight_position.wf(),
        ensures
            r@ == knight_targets_from(board@, knight_position, knight_color, 0),
            r.wf(),
    {
        KnightPosIterator { knight_pos: knight_position, knight_color, board, index: 0 }
    }

    /// Whether another field is to come.
    pub fn has_next_position(&self) -> (r: bool)
        requires
            self.wf(),
        ensures
            r == (self@.len() > 0),
    {
        let mut k = self.index;
        while k < 8
            invariant
                self.wf(),
                self.index <= k <= 8,
                knight_targets_from(self.board@, self.knight_pos, self.knight_color, self.index as int)
                    == knight_targets_from(self.board@, self.knight_pos, self.knight_color, k as int),
            decreases 8 - k,
        {
            if let Some(pos) = self.knight_pos.knight_jump_at(k) {
                match self.board.get_content_type(pos, self.knight_color) {
                    FieldContent::OwnFigure => {},
                    _ => {
                        return true;
                    },
                }
            }
            k = k + 1;
        }
        false
    }

    /// The next field, if any; the iterator moves past it.
    pub fn next(&mut self) -> (r: Option<Position>)
        requires
            old(self).wf(),
        ensures
            final(self).wf(),
            old(self)@.len() == 0 ==> r is None && final(self)@ == old(self)@,
            old(self)@.len() > 0 ==> r == Some(old(self)@[0]) && final(self)@ == old(self)@.drop_first(),
            r matches Some(p) ==> p.wf(),
    {
        while self.index < 8
            invariant
                self.wf(),
                self.board == old(self).board,
                self.knight_pos == old(self).knight_pos,
                self.knight_color == old(self).knight_color,
                self@ == old(self)@,
            decreases 8 - self.index,
        {
            let k = self.index;
            let opt_pos = self.knight_pos.knight_jump_at(k);
            self.index = k + 1;
            if let Some(pos) = opt_pos {
                match self.board.get_content_type(pos, self.knight_color) {
                    FieldContent::OwnFigure => {},
                    _ => {
                        let ghost rest = knight_targets_from(self.board@, self.knight_pos, self.knight_color, self.index as int);
                        assert((seq![pos] + rest).drop_first() =~= rest);
                        return Some(pos);
                    },
                }
            }
        }
        None
    }
}

impl Default for Position {
    /// The field a1.
    fn default() -> (r: Position)
        ensures
            r == Position::spec_at(0, 0),
    {
        Position { column: 0, row: 0, index: 0 }
    }
}

impl std::str::FromStr for Position {
    type Err = ChessError;

    fn from_str(code: &str) -> (r: Result<Position, ChessError>)
        ensures
            r matches Ok(p) ==> spec_parse_position(code@) == Some(p) && p.wf(),
            r is Err ==> spec_parse_position(code@) is None,
            r matches Err(e) ==> e.kind == ErrorKind::IllegalFormat,
    {
        Position::parse(code)
    }
}

/// Two well formed positions are equal exactly when their indices are.
pub proof fn lemma_position_eq_by_index(p: Position, q: Position)
    requires
        p.wf(),
        q.wf(),
    ensures
        (p.index == q.index) <==> (p == q),
{
}

/// Every index of the board names exactly one well formed position.
pub proof fn lemma_from_index_wf(i: int)
    requires
        0 <= i < 64,
    ensures
        Position::spec_from_index(i).wf(),
        Position::spec_from_index(i).index == i,
{
}

/// A well formed position is the one at its own column and row.
pub proof fn lemma_position_at(p: Position)
    requires
        p.wf(),
    ensures
        p == Position::spec_at(p.column as int, p.row as int),
        p == Position::spec_from_index(p.index as int),
{
}

/// Toggling the row twice gives the position back.
pub proof fn lemma_toggle_row_involution(p: Position)
    requires
        p.wf(),
    ensures
        p.spec_toggle_row().wf(),
        p.spec_toggle_row().spec_toggle_row() == p,
{
}

/// A step followed by a step in the reverse direction leads back.
pub proof fn lemma_step_reverse(p: Position, d: Direction)
    requires
        p.wf(),
        p.spec_step(d) is Some,
    ensures
        p.spec_step(d)->0.spec_step(d.spec_reverse()) == Some(p),
{
}

/// Reading the code of a position gives the position back.
pub proof fn lemma_parse_code(p: Position)
    requires
        p.wf(),
    ensures
        spec_parse_position(p.spec_code()) == Some(p),
{
}

/// Directions lead from a position exactly to the positions on its lines.
pub proof fn lemma_get_direction_step(p: Position, q: Position)
    requires
        p.wf(),
        q.wf(),
        p.spec_get_direction(q) is Some,
    ensures
        p.spec_step(p.spec_get_direction(q)->0) is Some,
        p != q,
{
}

} // verus!
