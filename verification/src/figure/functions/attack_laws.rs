use vstd::prelude::*;
use crate::base::{Color, Direction, Position};
use crate::figure::{Figure, FigureType};
use crate::figure::functions::castling::{
    spec_attackable_while_castling, spec_king_side_castling_allowed, spec_queen_side_castling_allowed,
};
use crate::figure::functions::check_search::{
    spec_backward_diagonal_attackable, spec_first_opposite, spec_forward_diagonal_attackable, spec_is_king_in_check,
    spec_knight_attackable, spec_straight_attackable,
};
use crate::figure::functions::symmetry::lemma_knight_attackable_by_jumps;
use crate::game::board::{first_occupied, knight_jump, lemma_first_occupied_fields, lemma_steps_left};

verus! {

/// An opponent knight stands a knight's jump away from `p`.
pub open spec fn knight_of_opponent_near(cells: Seq<Option<Figure>>, p: Position, color: Color) -> bool {
    exists|k: int|
        0 <= k < 8 && (#[trigger] knight_jump(p, k) matches Some(q) && cells[q.index as int] matches Some(f)
            && f.fig_type == FigureType::Knight && f.color != color)
}

/// The first figure seen from `p` in direction `d` is an opponent's figure of one of the given
/// kinds: a rook or queen when `straight`, a bishop or queen otherwise.
pub open spec fn line_attacker(cells: Seq<Option<Figure>>, p: Position, color: Color, d: Direction, straight: bool) -> bool {
    first_occupied(cells, p, d) matches Some(q) && cells[q.index as int] matches Some(f) && f.color != color && (
    f.fig_type == FigureType::Queen || (straight && f.fig_type == FigureType::Rook) || (!straight && f.fig_type
        == FigureType::Bishop))
}

/// An opponent figure next to `p` in direction `d` is the first figure seen that way.
proof fn lemma_neighbour_is_first(cells: Seq<Option<Figure>>, p: Position, color: Color, d: Direction)
    requires
        p.wf(),
        cells.len() == 64,
    ensures
        neighbour_attacker(cells, p, color, d) ==> spec_first_opposite(cells, p, color, d) == Some(
            ((cells[(p.spec_step(d)->0).index as int]->0).fig_type, true),
        ),
{
    lemma_steps_left(p, d);
}

/// No field a castling king passes may be attacked by a knight, or along the line in front of
/// it or a diagonal in front of it.
proof fn lemma_not_attackable_while_castling(cells: Seq<Option<Figure>>, p: Position, color: Color)
    requires
        p.wf(),
        cells.len() == 64,
        !spec_attackable_while_castling(cells, p, color),
    ensures
        !knight_of_opponent_near(cells, p, color),
        !line_attacker(cells, p, color, Direction::spec_forward_directions(color).1, true),
        !line_attacker(cells, p, color, Direction::spec_forward_directions(color).0, false),
        !line_attacker(cells, p, color, Direction::spec_forward_directions(color).2, false),
        !neighbour_attacker(cells, p, color, Direction::spec_forward_directions(color).0),
        !neighbour_attacker(cells, p, color, Direction::spec_forward_directions(color).1),
        !neighbour_attacker(cells, p, color, Direction::spec_forward_directions(color).2),
{
    let (fl, f, fr) = Direction::spec_forward_directions(color);
    lemma_neighbour_is_first(cells, p, color, fl);
    lemma_neighbour_is_first(cells, p, color, f);
    lemma_neighbour_is_first(cells, p, color, fr);
    lemma_knight_attackable_by_jumps(cells, p, color);
    if knight_of_opponent_near(cells, p, color) {
        let k = choose|k: int|
            0 <= k < 8 && (#[trigger] knight_jump(p, k) matches Some(q) && cells[q.index as int] matches Some(f)
                && f.fig_type == FigureType::Knight && f.color != color);
        assert(crate::figure::functions::symmetry::knight_attack_at(cells, p, color, k));
    }
}

/// Castling to the queen side is never allowed through an attack: when it is allowed, no
/// opponent knight is a jump away from the fields the king stands on, passes and reaches (c, d
/// and e of its row), no opponent rook or queen, nor bishop or queen, sees them first along
/// the line or the diagonals in front of them, and no opponent king or pawn stands next to them
/// in front or diagonally in front.
pub proof fn lemma_queen_side_castling_not_through_attack(cells: Seq<Option<Figure>>, color: Color, king_pos: Position)
    requires
        king_pos.wf(),
        cells.len() == 64,
        spec_queen_side_castling_allowed(cells, color, king_pos) is Some,
    ensures
        forall|c: int| 2 <= c <= 4 ==> {
            let p = #[trigger] Position::spec_at(c, king_pos.row as int);
            &&& !knight_of_opponent_near(cells, p, color)
            &&& !line_attacker(cells, p, color, Direction::spec_forward_directions(color).1, true)
            &&& !line_attacker(cells, p, color, Direction::spec_forward_directions(color).0, false)
            &&& !line_attacker(cells, p, color, Direction::spec_forward_directions(color).2, false)
            &&& !neighbour_attacker(cells, p, color, Direction::spec_forward_directions(color).0)
            &&& !neighbour_attacker(cells, p, color, Direction::spec_forward_directions(color).1)
            &&& !neighbour_attacker(cells, p, color, Direction::spec_forward_directions(color).2)
        },
{
    assert forall|c: int| 2 <= c <= 4 implies {
        let p = #[trigger] Position::spec_at(c, king_pos.row as int);
        &&& !knight_of_opponent_near(cells, p, color)
        &&& !line_attacker(cells, p, color, Direction::spec_forward_directions(color).1, true)
        &&& !line_attacker(cells, p, color, Direction::spec_forward_directions(color).0, false)
        &&& !line_attacker(cells, p, color, Direction::spec_forward_directions(color).2, false)
        &&& !neighbour_attacker(cells, p, color, Direction::spec_forward_directions(color).0)
        &&& !neighbour_attacker(cells, p, color, Direction::spec_forward_directions(color).1)
        &&& !neighbour_attacker(cells, p, color, Direction::spec_forward_directions(color).2)
    } by {
        let p = Position::spec_at(c, king_pos.row as int);
        assert(!spec_attackable_while_castling(cells, p, color));
        lemma_not_attackable_while_castling(cells, p, color);
    }
}

/// Castling to the king side is never allowed through an attack: when it is allowed, no
/// opponent knight is a jump away from the fields the king stands on, passes and reaches (e, f
/// and g of its row), no opponent rook or queen, nor bishop or queen, sees them first along
/// the line or the diagonals in front of them, and no opponent king or pawn stands next to them
/// in front or diagonally in front.
pub proof fn lemma_king_side_castling_not_through_attack(cells: Seq<Option<Figure>>, color: Color, king_pos: Position)
    requires
        king_pos.wf(),
        cells.len() == 64,
        spec_king_side_castling_allowed(cells, color, king_pos) is Some,
    ensures
        forall|c: int| 4 <= c <= 6 ==> {
            let p = #[trigger] Position::spec_at(c, king_pos.row as int);
            &&& !knight_of_opponent_near(cells, p, color)
            &&& !line_attacker(cells, p, color, Direction::spec_forward_directions(color).1, true)
            &&& !line_attacker(cells, p, color, Direction::spec_forward_directions(color).0, false)
            &&& !line_attacker(cells, p, color, Direction::spec_forward_directions(color).2, false)
            &&& !neighbour_attacker(cells, p, color, Direction::spec_forward_directions(color).0)
            &&& !neighbour_attacker(cells, p, color, Direction::spec_forward_directions(color).1)
            &&& !neighbour_attacker(cells, p, color, Direction::spec_forward_directions(color).2)
        },
{
    assert forall|c: int| 4 <= c <= 6 implies {
        let p = #[trigger] Position::spec_at(c, king_pos.row as int);
        &&& !knight_of_opponent_near(cells, p, color)
        &&& !line_attacker(cells, p, color, Direction::spec_forward_directions(color).1, true)
        &&& !line_attacker(cells, p, color, Direction::spec_forward_directions(color).0, false)
        &&& !line_attacker(cells, p, color, Direction::spec_forward_directions(color).2, false)
        &&& !neighbour_attacker(cells, p, color, Direction::spec_forward_directions(color).0)
        &&& !neighbour_attacker(cells, p, color, Direction::spec_forward_directions(color).1)
        &&& !neighbour_attacker(cells, p, color, Direction::spec_forward_directions(color).2)
    } by {
        let p = Position::spec_at(c, king_pos.row as int);
        assert(!spec_attackable_while_castling(cells, p, color));
        lemma_not_attackable_while_castling(cells, p, color);
    }
}

/// Castling to the queen side moves the king to c of its row over a free way: when it is
/// allowed, the fields b, c and d between rook and king are empty, and the king is not attacked
/// along its row from the other side, neither by a rook or queen seen first that way nor by a
/// king next to it.
pub proof fn lemma_queen_side_castling_way_is_free(cells: Seq<Option<Figure>>, color: Color, king_pos: Position)
    requires
        king_pos.wf(),
        cells.len() == 64,
        spec_queen_side_castling_allowed(cells, color, king_pos) is Some,
    ensures
        spec_queen_side_castling_allowed(cells, color, king_pos) == Some(Position::spec_at(2, king_pos.row as int)),
        forall|c: int| 1 <= c <= 3 ==> cells[#[trigger] Position::spec_at(c, king_pos.row as int).index as int] is None,
        !line_attacker(cells, king_pos, color, Direction::Right, true),
        !neighbour_attacker(cells, king_pos, color, Direction::Right),
{
    lemma_neighbour_is_first(cells, king_pos, color, Direction::Right);
    lemma_first_occupied_fields(cells, king_pos, Direction::Right);
}

/// Castling to the king side moves the king to g of its row over a free way: when it is
/// allowed, the fields f and g between king and rook are empty, and the king is not attacked
/// along its row from the other side, neither by a rook or queen seen first that way nor by a
/// king next to it.
pub proof fn lemma_king_side_castling_way_is_free(cells: Seq<Option<Figure>>, color: Color, king_pos: Position)
    requires
        king_pos.wf(),
        cells.len() == 64,
        spec_king_side_castling_allowed(cells, color, king_pos) is Some,
    ensures
        spec_king_side_castling_allowed(cells, color, king_pos) == Some(Position::spec_at(6, king_pos.row as int)),
        forall|c: int| 5 <= c <= 6 ==> cells[#[trigger] Position::spec_at(c, king_pos.row as int).index as int] is None,
        !line_attacker(cells, king_pos, color, Direction::Left, true),
        !neighbour_attacker(cells, king_pos, color, Direction::Left),
{
    lemma_neighbour_is_first(cells, king_pos, color, Direction::Left);
    lemma_first_occupied_fields(cells, king_pos, Direction::Left);
}

/// A king is in check when an opponent rook or queen is the first figure it sees along a
/// row or column, or an opponent bishop or queen the first it sees along a diagonal: in front,
/// beside and behind it alike.
pub proof fn lemma_line_attack_is_check(cells: Seq<Option<Figure>>, king_pos: Position, color: Color, d: Direction)
    requires
        king_pos.wf(),
        cells.len() == 64,
        line_attacker(cells, king_pos, color, d, d.spec_is_straight()),
    ensures
        spec_is_king_in_check(cells, king_pos, color),
{
    lemma_steps_left(king_pos, d);
    lemma_first_occupied_fields(cells, king_pos, d);
    let q = first_occupied(cells, king_pos, d)->0;
    let f = cells[q.index as int]->0;
    assert(spec_first_opposite(cells, king_pos, color, d) == Some((f.fig_type, Some(q) == king_pos.spec_step(d))));
}

/// A king is in check when an opponent knight stands a knight's jump away.
pub proof fn lemma_knight_attack_is_check(cells: Seq<Option<Figure>>, king_pos: Position, color: Color)
    requires
        king_pos.wf(),
        cells.len() == 64,
        knight_of_opponent_near(cells, king_pos, color),
    ensures
        spec_is_king_in_check(cells, king_pos, color),
{
    lemma_knight_attackable_by_jumps(cells, king_pos, color);
    let k = choose|k: int|
        0 <= k < 8 && (#[trigger] knight_jump(king_pos, k) matches Some(q) && cells[q.index as int] matches Some(f)
            && f.fig_type == FigureType::Knight && f.color != color);
    assert(crate::figure::functions::symmetry::knight_attack_at(cells, king_pos, color, k));
}

/// A king is in check when an opponent king stands on a neighbouring field, or an opponent pawn
/// on one of the two fields diagonally in front of it.
pub proof fn lemma_neighbour_attack_is_check(cells: Seq<Option<Figure>>, king_pos: Position, color: Color, d: Direction)
    requires
        king_pos.wf(),
        cells.len() == 64,
        king_pos.spec_step(d) matches Some(q) && cells[q.index as int] matches Some(f) && f.color != color && (f.fig_type
            == FigureType::King || (f.fig_type == FigureType::Pawn && (d == Direction::spec_forward_directions(color).0
            || d == Direction::spec_forward_directions(color).2))),
    ensures
        spec_is_king_in_check(cells, king_pos, color),
{
    lemma_steps_left(king_pos, d);
    let q = king_pos.spec_step(d)->0;
    let f = cells[q.index as int]->0;
    assert(first_occupied(cells, king_pos, d) == Some(q));
    assert(spec_first_opposite(cells, king_pos, color, d) == Some((f.fig_type, true)));
}

/// An opponent figure on the neighbouring field in direction `d` attacks the king there: a
/// king from any side, a pawn from the two fields diagonally in front of it.
pub open spec fn neighbour_attacker(cells: Seq<Option<Figure>>, p: Position, color: Color, d: Direction) -> bool {
    p.spec_step(d) matches Some(q) && cells[q.index as int] matches Some(f) && f.color != color && (f.fig_type
        == FigureType::King || (f.fig_type == FigureType::Pawn && (d == Direction::spec_forward_directions(color).0
        || d == Direction::spec_forward_directions(color).2)))
}

/// The first figure seen from `p` in direction `d` attacks along that line: a rook or queen on
/// a row or column, a bishop or queen on a diagonal.
pub open spec fn line_attacker_towards(cells: Seq<Option<Figure>>, p: Position, color: Color, d: Direction) -> bool {
    line_attacker(cells, p, color, d, d.spec_is_straight())
}

/// Whether an opponent figure attacks the field `p` of a king of `color`: a rook or queen seen
/// first along a row or column, a bishop or queen seen first along a diagonal, a knight a jump
/// away, a king next to it, or a pawn diagonally in front of it.
pub open spec fn attacked_by_opponent(cells: Seq<Option<Figure>>, p: Position, color: Color) -> bool {
    ||| exists|d: Direction| #[trigger] line_attacker_towards(cells, p, color, d)
    ||| knight_of_opponent_near(cells, p, color)
    ||| exists|d: Direction| #[trigger] neighbour_attacker(cells, p, color, d)
}

/// What the first opponent figure in a direction is: the first occupied field holds it.
proof fn lemma_first_opposite_field(cells: Seq<Option<Figure>>, p: Position, color: Color, d: Direction)
    requires
        p.wf(),
        cells.len() == 64,
        spec_first_opposite(cells, p, color, d) is Some,
    ensures
        first_occupied(cells, p, d) matches Some(q) && cells[q.index as int] matches Some(f) && f.color != color
            && f.fig_type == (spec_first_opposite(cells, p, color, d)->0).0 && ((spec_first_opposite(cells, p, color, d)->0).1
            ==> p.spec_step(d) == Some(q)),
{
    lemma_first_occupied_fields(cells, p, d);
}

/// The attack a king is in check from along direction `d`, as an attack by a figure.
proof fn lemma_line_check_attacked(cells: Seq<Option<Figure>>, p: Position, color: Color, d: Direction, straight: bool)
    requires
        p.wf(),
        cells.len() == 64,
        straight == d.spec_is_straight(),
        (straight && spec_straight_attackable(cells, p, color, d)) || (!straight && (spec_forward_diagonal_attackable(
            cells,
            p,
            color,
            d,
        ) && (d == Direction::spec_forward_directions(color).0 || d == Direction::spec_forward_directions(color).2)
            || spec_backward_diagonal_attackable(cells, p, color, d))),
    ensures
        attacked_by_opponent(cells, p, color),
{
    lemma_first_opposite_field(cells, p, color, d);
    if line_attacker(cells, p, color, d, d.spec_is_straight()) {
        assert(line_attacker_towards(cells, p, color, d));
    } else {
        assert(neighbour_attacker(cells, p, color, d));
    }
}

/// A king is in check exactly when an opponent figure attacks its field: a rook or queen seen
/// first along its row or column, a bishop or queen seen first along a diagonal, a knight a jump
/// away, a king next to it, or a pawn diagonally in front of it; from in front, beside and
/// behind alike.
pub proof fn lemma_check_iff_attacked(cells: Seq<Option<Figure>>, king_pos: Position, color: Color)
    requires
        king_pos.wf(),
        cells.len() == 64,
    ensures
        spec_is_king_in_check(cells, king_pos, color) == attacked_by_opponent(cells, king_pos, color),
{
    if attacked_by_opponent(cells, king_pos, color) {
        if exists|d: Direction| #[trigger] line_attacker_towards(cells, king_pos, color, d) {
            let d = choose|d: Direction| #[trigger] line_attacker_towards(cells, king_pos, color, d);
            lemma_line_attack_is_check(cells, king_pos, color, d);
        } else if knight_of_opponent_near(cells, king_pos, color) {
            lemma_knight_attack_is_check(cells, king_pos, color);
        } else {
            let d = choose|d: Direction| #[trigger] neighbour_attacker(cells, king_pos, color, d);
            lemma_neighbour_attack_is_check(cells, king_pos, color, d);
        }
    }
    if spec_is_king_in_check(cells, king_pos, color) {
        let (fl, f, fr) = Direction::spec_forward_directions(color);
        if spec_straight_attackable(cells, king_pos, color, f) {
            lemma_line_check_attacked(cells, king_pos, color, f, true);
        } else if spec_straight_attackable(cells, king_pos, color, Direction::Left) {
            lemma_line_check_attacked(cells, king_pos, color, Direction::Left, true);
        } else if spec_straight_attackable(cells, king_pos, color, Direction::Right) {
            lemma_line_check_attacked(cells, king_pos, color, Direction::Right, true);
        } else if spec_forward_diagonal_attackable(cells, king_pos, color, fl) {
            lemma_line_check_attacked(cells, king_pos, color, fl, false);
        } else if spec_forward_diagonal_attackable(cells, king_pos, color, fr) {
            lemma_line_check_attacked(cells, king_pos, color, fr, false);
        } else if spec_knight_attackable(cells, king_pos, color) {
            lemma_knight_attackable_by_jumps(cells, king_pos, color);
            let k = choose|k: int| 0 <= k < 8 && #[trigger] crate::figure::functions::symmetry::knight_attack_at(cells, king_pos, color, k);
            assert(knight_jump(king_pos, k) matches Some(q) && cells[q.index as int] matches Some(g)
                && g.fig_type == FigureType::Knight && g.color != color);
        } else if spec_straight_attackable(cells, king_pos, color, f.spec_reverse()) {
            lemma_line_check_attacked(cells, king_pos, color, f.spec_reverse(), true);
        } else if spec_backward_diagonal_attackable(cells, king_pos, color, fl.spec_reverse()) {
            lemma_line_check_attacked(cells, king_pos, color, fl.spec_reverse(), false);
        } else {
            lemma_line_check_attacked(cells, king_pos, color, fr.spec_reverse(), false);
        }
    }
}

} // verus!
