use vstd::prelude::*;
use crate::base::Color;

verus! {

/// The eight directions a figure can move in, seen from white's side of the board.
#[derive(Debug, Copy, Clone, PartialEq, Eq, Structural, Hash)]
pub enum Direction {
    Up,
    UpRight,
    Right,
    DownRight,
    Down,
    DownLeft,
    Left,
    UpLeft,
}

impl Direction {
    /// The change of column one step in this direction makes.
    pub open spec fn dc(self) -> int {
        match self {
            Direction::Up | Direction::Down => 0,
            Direction::UpRight | Direction::Right | Direction::DownRight => 1,
            Direction::UpLeft | Direction::Left | Direction::DownLeft => -1,
        }
    }

    /// The change of row one step in this direction makes.
    pub open spec fn dr(self) -> int {
        match self {
            Direction::Left | Direction::Right => 0,
            Direction::UpLeft | Direction::Up | Direction::UpRight => 1,
            Direction::DownLeft | Direction::Down | Direction::DownRight => -1,
        }
    }

    /// The triple (forward left, forward, forward right) for a pawn of the given color.
    pub open spec fn spec_forward_directions(color: Color) -> (Direction, Direction, Direction) {
        match color {
            Color::White => (Direction::UpLeft, Direction::Up, Direction::UpRight),
            Color::Black => (Direction::DownLeft, Direction::Down, Direction::DownRight),
        }
    }

    /**
    * returns a triple: (forwardLeft, forward, forwardRight)
    */
    pub fn forward_directions(color: Color) -> (r: (Direction, Direction, Direction))
        ensures
            r == Self::spec_forward_directions(color),
    {
        match color {
            Color::White => (Direction::UpLeft, Direction::Up, Direction::UpRight),
            Color::Black => (Direction::DownLeft, Direction::Down, Direction::DownRight),
        }
    }

    pub open spec fn spec_reverse(self) -> Direction {
        match self {
            Direction::Up => Direction::Down,
            Direction::UpRight => Direction::DownLeft,
            Direction::Right => Direction::Left,
            Direction::DownRight => Direction::UpLeft,
            Direction::Down => Direction::Up,
            Direction::DownLeft => Direction::UpRight,
            Direction::Left => Direction::Right,
            Direction::UpLeft => Direction::DownRight,
        }
    }

    pub fn reverse(&self) -> (r: Direction)
        ensures
            r == self.spec_reverse(),
            r.dc() == -self.dc(),
            r.dr() == -self.dr(),
    {
        match self {
            Direction::Up => Direction::Down,
            Direction::UpRight => Direction::DownLeft,
            Direction::Right => Direction::Left,
            Direction::DownRight => Direction::UpLeft,
            Direction::Down => Direction::Up,
            Direction::DownLeft => Direction::UpRight,
            Direction::Left => Direction::Right,
            Direction::UpLeft => Direction::DownRight,
        }
    }

    pub open spec fn spec_is_straight(self) -> bool {
        self.dc() == 0 || self.dr() == 0
    }

    pub fn is_straight(&self) -> (r: bool)
        ensures
            r == self.spec_is_straight(),
    {
        matches!(self, Direction::Up | Direction::Down | Direction::Left | Direction::Right)
    }

    pub open spec fn spec_is_diagonal(self) -> bool {
        self.dc() != 0 && self.dr() != 0
    }

    pub fn is_diagonal(&self) -> (r: bool)
        ensures
            r == self.spec_is_diagonal(),
    {
        matches!(self, Direction::UpLeft | Direction::UpRight | Direction::DownLeft | Direction::DownRight)
    }
}

/// Reversing a direction twice gives it back, a direction is never its own reverse,
/// every direction is either straight or diagonal, and a step in it is never the null step.
pub proof fn lemma_direction_laws(d: Direction)
    ensures
        d.spec_reverse().spec_reverse() == d,
        d.spec_reverse() != d,
        d.spec_is_straight() != d.spec_is_diagonal(),
        d.dc() != 0 || d.dr() != 0,
        -1 <= d.dc() <= 1,
        -1 <= d.dr() <= 1,
{
}

/// Two directions with the same step are the same direction.
pub proof fn lemma_direction_by_delta(d1: Direction, d2: Direction)
    ensures
        (d1.dc() == d2.dc() && d1.dr() == d2.dr()) <==> d1 == d2,
{
}

impl Direction {
    /// The direction seen from the other side of the board: up and down swap, left and right stay.
    pub open spec fn spec_mirror(self) -> Direction {
        match self {
            Direction::Up => Direction::Down,
            Direction::UpRight => Direction::DownRight,
            Direction::Right => Direction::Right,
            Direction::DownRight => Direction::UpRight,
            Direction::Down => Direction::Up,
            Direction::DownLeft => Direction::UpLeft,
            Direction::Left => Direction::Left,
            Direction::UpLeft => Direction::DownLeft,
        }
    }
}

pub open spec fn spec_all_directions() -> Seq<Direction> {
    seq![
        Direction::Up,
        Direction::UpRight,
        Direction::Right,
        Direction::DownRight,
        Direction::Down,
        Direction::DownLeft,
        Direction::Left,
        Direction::UpLeft,
    ]
}

pub open spec fn spec_straight_directions() -> Seq<Direction> {
    seq![Direction::Up, Direction::Right, Direction::Down, Direction::Left]
}

pub open spec fn spec_diagonal_directions() -> Seq<Direction> {
    seq![Direction::UpRight, Direction::DownRight, Direction::DownLeft, Direction::UpLeft]
}

/// All eight directions, clockwise from `Up`.
pub fn all_directions() -> (r: [Direction; 8])
    ensures
        r@ == spec_all_directions(),
{
    let r = [
        Direction::Up,
        Direction::UpRight,
        Direction::Right,
        Direction::DownRight,
        Direction::Down,
        Direction::DownLeft,
        Direction::Left,
        Direction::UpLeft,
    ];
    assert(r@ =~= spec_all_directions());
    r
}

/// The four straight directions, clockwise from `Up`.
pub fn straight_directions() -> (r: [Direction; 4])
    ensures
        r@ == spec_straight_directions(),
{
    let r = [Direction::Up, Direction::Right, Direction::Down, Direction::Left];
    assert(r@ =~= spec_straight_directions());
    r
}

/// The four diagonal directions, clockwise from `UpRight`.
pub fn diagonal_directions() -> (r: [Direction; 4])
    ensures
        r@ == spec_diagonal_directions(),
{
    let r = [Direction::UpRight, Direction::DownRight, Direction::DownLeft, Direction::UpLeft];
    assert(r@ =~= spec_diagonal_directions());
    r
}

} // verus!
