use vstd::prelude::*;
use crate::base::{Color, Direction, Position};
use crate::base::a_move::{CastlingType, Move, MoveType, Moves, PromotionType};
use crate::base::direction::{
    all_directions, diagonal_directions, spec_all_directions, spec_diagonal_directions, spec_straight_directions,
    straight_directions,
};
use crate::figure::{Figure, FigureType};
use crate::figure::functions::castling::{
    is_king_side_castling_allowed, is_queen_side_castling_allowed, spec_king_side_castling_allowed,
    spec_queen_side_castling_allowed,
};
use crate::game::{Board, FieldContent, GameState};
use crate::game::game_state::GameStateModel;
use crate::game::board::{knight_targets_from, lemma_board_len, lemma_knight_targets_fields, lemma_ray_targets_fields, ray_targets, spec_content_type};

verus! {

/// A plain move from `from` to `to`.
pub open spec fn normal_move(from: Position, to: Position) -> Move {
    Move::spec_new(from, to, MoveType::Normal)
}

/// Plain moves from `from` to each of the targets, in order.
pub open spec fn moves_to(from: Position, targets: Seq<Position>) -> Seq<Move> {
    targets.map_values(|t: Position| normal_move(from, t))
}

/// The moves of a rook, bishop or queen on `pos`: along each direction in turn, every field up
/// to the first figure, and that one too if it belongs to the opponent.
pub open spec fn directed_moves(cells: Seq<Option<Figure>>, color: Color, pos: Position, dirs: Seq<Direction>) -> Seq<Move>
    decreases dirs.len(),
{
    if dirs.len() == 0 {
        Seq::empty()
    } else {
        directed_moves(cells, color, pos, dirs.drop_last()) + moves_to(pos, ray_targets(cells, pos, dirs.last(), color))
    }
}

/// A pawn reaching the last row promotes to a queen or a knight; other pawn moves are plain.
pub open spec fn pawn_moves_to(from: Position, to: Position) -> Seq<Move> {
    if to.row == 0 || to.row == 7 {
        seq![
            Move::spec_new(from, to, MoveType::PawnPromotion(PromotionType::Queen)),
            Move::spec_new(from, to, MoveType::PawnPromotion(PromotionType::Knight)),
        ]
    } else {
        seq![normal_move(from, to)]
    }
}

/// A pawn takes diagonally forward onto an opponent's figure, or onto the empty en-passant
/// field.
pub open spec fn diagonal_pawn_moves(
    cells: Seq<Option<Figure>>,
    color: Color,
    from: Position,
    diagonal: Option<Position>,
    en_passant: Option<Position>,
) -> Seq<Move> {
    match diagonal {
        None => Seq::empty(),
        Some(p) => match spec_content_type(cells[p.index as int], color) {
            FieldContent::OpponentFigure => pawn_moves_to(from, p),
            FieldContent::Empty => if en_passant == Some(p) {
                seq![Move::spec_new(from, p, MoveType::EnPassant)]
            } else {
                Seq::empty()
            },
            FieldContent::OwnFigure => Seq::empty(),
        },
    }
}

/// Whether a pawn of `color` on `from` still stands on its starting row.
pub open spec fn on_pawn_start_row(from: Position, color: Color) -> bool {
    (from.row == 1 && color == Color::White) || (from.row == 6 && color == Color::Black)
}

/// A pawn moves one field forward onto an empty field, and from its starting row two fields if
/// both are empty.
pub open spec fn forward_pawn_moves(cells: Seq<Option<Figure>>, color: Color, from: Position) -> Seq<Move> {
    let forward = Direction::spec_forward_directions(color).1;
    match from.spec_step(forward) {
        None => Seq::empty(),
        Some(p) => if cells[p.index as int] is None {
            pawn_moves_to(from, p) + if on_pawn_start_row(from, color) {
                let dp = p.spec_step(forward)->0;
                if cells[dp.index as int] is None {
                    pawn_moves_to(from, dp)
                } else {
                    Seq::empty()
                }
            } else {
                Seq::empty()
            }
        } else {
            Seq::empty()
        },
    }
}

/// The moves of a pawn: forward left, forward right, then straight forward.
pub open spec fn pawn_moves(cells: Seq<Option<Figure>>, color: Color, from: Position, en_passant: Option<Position>) -> Seq<Move> {
    let (forward_left, _, forward_right) = Direction::spec_forward_directions(color);
    diagonal_pawn_moves(cells, color, from, from.spec_step(forward_left), en_passant) + diagonal_pawn_moves(
        cells,
        color,
        from,
        from.spec_step(forward_right),
        en_passant,
    ) + forward_pawn_moves(cells, color, from)
}

/// The single steps of a king in the given directions onto fields without a figure of its own.
pub open spec fn king_step_moves(cells: Seq<Option<Figure>>, color: Color, from: Position, dirs: Seq<Direction>) -> Seq<Move>
    decreases dirs.len(),
{
    if dirs.len() == 0 {
        Seq::empty()
    } else {
        king_step_moves(cells, color, from, dirs.drop_last()) + match from.spec_step(dirs.last()) {
            Some(p) => if spec_content_type(cells[p.index as int], color) != FieldContent::OwnFigure {
                seq![normal_move(from, p)]
            } else {
                Seq::empty()
            },
            None => Seq::empty(),
        }
    }
}

/// A castling move, if the castling is still possible and allowed.
pub open spec fn castling_moves(from: Position, still_possible: bool, allowed: Option<Position>, castling_type: CastlingType) -> Seq<Move> {
    if still_possible && allowed is Some {
        seq![Move::spec_new(from, allowed->0, MoveType::Castling(castling_type))]
    } else {
        Seq::empty()
    }
}

/// The moves of a king: its single steps, then queen side and king side castling.
pub open spec fn king_moves(cells: Seq<Option<Figure>>, color: Color, from: Position, queen_side: bool, king_side: bool) -> Seq<Move> {
    king_step_moves(cells, color, from, spec_all_directions()) + castling_moves(
        from,
        queen_side,
        spec_queen_side_castling_allowed(cells, color, from),
        CastlingType::QueenSide,
    ) + castling_moves(from, king_side, spec_king_side_castling_allowed(cells, color, from), CastlingType::KingSide)
}

/// The moves a figure of the side to move, of the given type and on `pos`, can reach in `s`.
pub open spec fn spec_reachable_moves_of(s: GameStateModel, fig_type: FigureType, pos: Position) -> Seq<Move> {
    let cells = s.cells;
    let color = s.turn_by;
    match fig_type {
        FigureType::Pawn => pawn_moves(cells, color, pos, s.en_passant),
        FigureType::Rook => directed_moves(cells, color, pos, spec_straight_directions()),
        FigureType::Knight => moves_to(pos, knight_targets_from(cells, pos, color, 0)),
        FigureType::Bishop => directed_moves(cells, color, pos, spec_diagonal_directions()),
        FigureType::Queen => directed_moves(cells, color, pos, spec_all_directions()),
        FigureType::King => match color {
            Color::White => king_moves(
                cells,
                color,
                pos,
                s.white_queen_side,
                s.white_king_side,
            ),
            Color::Black => king_moves(
                cells,
                color,
                pos,
                s.black_queen_side,
                s.black_king_side,
            ),
        },
    }
}

/// Adds the moves a figure of the side to move, of the given type and on `pos`, can reach.
pub fn for_reachable_moves(fig_type: FigureType, pos: Position, game_state: &GameState, move_collector: &mut Moves)
    requires
        pos.wf(),
        game_state.en_passant_intercept_pos matches Some(p) ==> p.wf(),
    ensures
        final(move_collector)@ == old(move_collector)@ + spec_reachable_moves_of(game_state.model(), fig_type, pos),
{
    match fig_type {
        FigureType::Pawn => for_reachable_pawn_moves(
            game_state.turn_by,
            pos,
            &game_state.board,
            game_state.en_passant_intercept_pos,
            move_collector,
        ),
        FigureType::Rook => for_reachable_rook_moves(game_state.turn_by, pos, &game_state.board, move_collector),
        FigureType::Knight => for_reachable_knight_moves(game_state.turn_by, pos, &game_state.board, move_collector),
        FigureType::Bishop => for_reachable_bishop_moves(game_state.turn_by, pos, &game_state.board, move_collector),
        FigureType::Queen => for_reachable_queen_moves(game_state.turn_by, pos, &game_state.board, move_collector),
        FigureType::King => {
            let is_queen_side_castling_still_possible: bool;
            let is_king_side_castling_still_possible: bool;
            match game_state.turn_by {
                Color::White => {
                    is_queen_side_castling_still_possible =
                    game_state.is_white_queen_side_castling_still_possible.get_value();
                    is_king_side_castling_still_possible =
                    game_state.is_white_king_side_castling_still_possible.get_value();
                },
                Color::Black => {
                    is_queen_side_castling_still_possible =
                    game_state.is_black_queen_side_castling_still_possible.get_value();
                    is_king_side_castling_still_possible =
                    game_state.is_black_king_side_castling_still_possible.get_value();
                },
            }
            for_reachable_king_moves(
                game_state.turn_by,
                pos,
                &game_state.board,
                is_queen_side_castling_still_possible,
                is_king_side_castling_still_possible,
                move_collector,
            )
        },
    }
}

fn push_pawn_moves(pawn_pos_from: Position, pawn_pos_to: Position, move_collector: &mut Moves)
    requires
        pawn_pos_from.wf(),
        pawn_pos_to.wf(),
    ensures
        final(move_collector)@ == old(move_collector)@ + pawn_moves_to(pawn_pos_from, pawn_pos_to),
{
    if pawn_pos_to.row == 0 || pawn_pos_to.row == 7 {
        move_collector.push(
            Move::new(pawn_pos_from, pawn_pos_to, Some(MoveType::PawnPromotion(PromotionType::Queen))),
        );
        move_collector.push(
            Move::new(pawn_pos_from, pawn_pos_to, Some(MoveType::PawnPromotion(PromotionType::Knight))),
        );
    } else {
        move_collector.push(Move::new(pawn_pos_from, pawn_pos_to, None));
    }
    assert(final(move_collector)@ =~= old(move_collector)@ + pawn_moves_to(pawn_pos_from, pawn_pos_to));
}

fn push_diagonal_pawn_move(
    color: Color,
    pawn_pos: Position,
    diagonal_forward_pos: Position,
    board: &Board,
    opt_en_passant_intercept_pos: Option<Position>,
    move_collector: &mut Moves,
)
    requires
        pawn_pos.wf(),
        diagonal_forward_pos.wf(),
    ensures
        final(move_collector)@ == old(move_collector)@ + diagonal_pawn_moves(
            board@,
            color,
            pawn_pos,
            Some(diagonal_forward_pos),
            opt_en_passant_intercept_pos,
        ),
{
    match board.get_content_type(diagonal_forward_pos, color) {
        FieldContent::OpponentFigure => push_pawn_moves(pawn_pos, diagonal_forward_pos, move_collector),
        FieldContent::Empty => {
            if let Some(en_passant_intercept_pos) = opt_en_passant_intercept_pos {
                if en_passant_intercept_pos == diagonal_forward_pos {
                    move_collector.push(Move::new(pawn_pos, diagonal_forward_pos, Some(MoveType::EnPassant)));
                }
            }
            assert(final(move_collector)@ =~= old(move_collector)@ + diagonal_pawn_moves(
                board@,
                color,
                pawn_pos,
                Some(diagonal_forward_pos),
                opt_en_passant_intercept_pos,
            ));
        },
        FieldContent::OwnFigure => {
            assert(final(move_collector)@ =~= old(move_collector)@ + Seq::<Move>::empty());
        },
    }
}

fn for_reachable_pawn_moves(
    color: Color,
    pawn_pos: Position,
    board: &Board,
    opt_en_passant_intercept_pos: Option<Position>,
    move_collector: &mut Moves,
)
    requires
        pawn_pos.wf(),
    ensures
        final(move_collector)@ == old(move_collector)@ + pawn_moves(board@, color, pawn_pos, opt_en_passant_intercept_pos),
{
    let ghost cells = board@;
    let ghost start = old(move_collector)@;
    let (forward_left, forward, forward_right) = Direction::forward_directions(color);
    let ghost d1 = diagonal_pawn_moves(cells, color, pawn_pos, pawn_pos.spec_step(forward_left), opt_en_passant_intercept_pos);
    let ghost d2 = diagonal_pawn_moves(cells, color, pawn_pos, pawn_pos.spec_step(forward_right), opt_en_passant_intercept_pos);
    if let Some(forward_left_pos) = pawn_pos.step(forward_left) {
        push_diagonal_pawn_move(color, pawn_pos, forward_left_pos, board, opt_en_passant_intercept_pos, move_collector);
    }
    assert(move_collector@ =~= start + d1);
    if let Some(forward_right_pos) = pawn_pos.step(forward_right) {
        push_diagonal_pawn_move(color, pawn_pos, forward_right_pos, board, opt_en_passant_intercept_pos, move_collector);
    }
    assert(move_collector@ =~= start + d1 + d2);
    let ghost mid = move_collector@;
    if let Some(forward_pos) = pawn_pos.step(forward) {
        if let FieldContent::Empty = board.get_content_type(forward_pos, color) {
            push_pawn_moves(pawn_pos, forward_pos, move_collector);
            // check for two-jump option
            if (pawn_pos.row == 1 && color == Color::White) || (pawn_pos.row == 6 && color == Color::Black) {
                let double_forward_pos = match forward_pos.step(forward) {
                    Some(p) => p,
                    None => forward_pos,
                };
                if let FieldContent::Empty = board.get_content_type(double_forward_pos, color) {
                    push_pawn_moves(pawn_pos, double_forward_pos, move_collector);
                }
            }
        }
    }
    assert(move_collector@ =~= mid + forward_pawn_moves(cells, color, pawn_pos));
    assert(move_collector@ =~= start + pawn_moves(cells, color, pawn_pos, opt_en_passant_intercept_pos));
}

/// Adds the moves along one direction.
fn push_ray_moves(color: Color, pos: Position, direction: Direction, board: &Board, move_collector: &mut Moves)
    requires
        pos.wf(),
    ensures
        final(move_collector)@ == old(move_collector)@ + moves_to(pos, ray_targets(board@, pos, direction, color)),
{
    let ghost goal = old(move_collector)@ + moves_to(pos, ray_targets(board@, pos, direction, color));
    let mut targets = pos.reachable_directed_positions(color, direction, board);
    assert(move_collector@ + moves_to(pos, targets@) =~= goal);
    loop
        invariant
            pos.wf(),
            targets.wf(),
            move_collector@ + moves_to(pos, targets@) == goal,
        ensures
            move_collector@ == goal,
        decreases targets@.len(),
    {
        let ghost before = targets@;
        match targets.next() {
            None => {
                assert(move_collector@ =~= goal);
                break;
            },
            Some(pos_to) => {
                let ghost c = move_collector@;
                move_collector.push(Move::new(pos, pos_to, None));
                assert(moves_to(pos, before) =~= seq![normal_move(pos, pos_to)] + moves_to(pos, targets@));
                assert(move_collector@ + moves_to(pos, targets@) =~= c + moves_to(pos, before));
            },
        }
    }
}

/// Adds the moves along each of the directions in turn.
fn push_directed_moves(color: Color, pos: Position, directions: &[Direction], board: &Board, move_collector: &mut Moves)
    requires
        pos.wf(),
    ensures
        final(move_collector)@ == old(move_collector)@ + directed_moves(board@, color, pos, directions@),
{
    let ghost start = old(move_collector)@;
    let mut i: usize = 0;
    assert(directions@.take(0) =~= Seq::<Direction>::empty());
    assert(move_collector@ =~= start + directed_moves(board@, color, pos, directions@.take(0)));
    while i < directions.len()
        invariant
            pos.wf(),
            i <= directions@.len(),
            move_collector@ == start + directed_moves(board@, color, pos, directions@.take(i as int)),
        decreases directions@.len() - i,
    {
        push_ray_moves(color, pos, directions[i], board, move_collector);
        assert(directions@.take(i + 1).drop_last() =~= directions@.take(i as int));
        assert(move_collector@ =~= start + directed_moves(board@, color, pos, directions@.take(i + 1)));
        i = i + 1;
    }
    assert(directions@.take(i as int) =~= directions@);
}

fn for_reachable_rook_moves(color: Color, rook_pos: Position, board: &Board, move_collector: &mut Moves)
    requires
        rook_pos.wf(),
    ensures
        final(move_collector)@ == old(move_collector)@ + directed_moves(board@, color, rook_pos, spec_straight_directions()),
{
    let directions = straight_directions();
    push_directed_moves(color, rook_pos, &directions, board, move_collector);
}

pub fn for_reachable_knight_moves(color: Color, knight_pos: Position, board: &Board, move_collector: &mut Moves)
    requires
        knight_pos.wf(),
    ensures
        final(move_collector)@ == old(move_collector)@ + moves_to(knight_pos, knight_targets_from(board@, knight_pos, color, 0)),
{
    let ghost goal = old(move_collector)@ + moves_to(knight_pos, knight_targets_from(board@, knight_pos, color, 0));
    let mut targets = knight_pos.reachable_knight_positions(color, board);
    assert(move_collector@ + moves_to(knight_pos, targets@) =~= goal);
    loop
        invariant
            knight_pos.wf(),
            targets.wf(),
            move_collector@ + moves_to(knight_pos, targets@) == goal,
        ensures
            move_collector@ == goal,
        decreases targets@.len(),
    {
        let ghost before = targets@;
        match targets.next() {
            None => {
                assert(move_collector@ =~= goal);
                break;
            },
            Some(pos_to) => {
                let ghost c = move_collector@;
                move_collector.push(Move::new(knight_pos, pos_to, None));
                assert(moves_to(knight_pos, before) =~= seq![normal_move(knight_pos, pos_to)] + moves_to(
                    knight_pos,
                    targets@,
                ));
                assert(move_collector@ + moves_to(knight_pos, targets@) =~= c + moves_to(knight_pos, before));
            },
        }
    }
}

fn for_reachable_bishop_moves(color: Color, bishop_pos: Position, board: &Board, move_collector: &mut Moves)
    requires
        bishop_pos.wf(),
    ensures
        final(move_collector)@ == old(move_collector)@ + directed_moves(board@, color, bishop_pos, spec_diagonal_directions()),
{
    let directions = diagonal_directions();
    push_directed_moves(color, bishop_pos, &directions, board, move_collector);
}

fn for_reachable_queen_moves(color: Color, queen_pos: Position, board: &Board, move_collector: &mut Moves)
    requires
        queen_pos.wf(),
    ensures
        final(move_collector)@ == old(move_collector)@ + directed_moves(board@, color, queen_pos, spec_all_directions()),
{
    let directions = all_directions();
    push_directed_moves(color, queen_pos, &directions, board, move_collector);
}

fn for_reachable_king_moves(
    color: Color,
    king_pos: Position,
    board: &Board,
    is_queen_side_castling_still_possible: bool,
    is_king_side_castling_still_possible: bool,
    move_collector: &mut Moves,
)
    requires
        king_pos.wf(),
    ensures
        final(move_collector)@ == old(move_collector)@ + king_moves(
            board@,
            color,
            king_pos,
            is_queen_side_castling_still_possible,
            is_king_side_castling_still_possible,
        ),
{
    let ghost cells = board@;
    let ghost start = old(move_collector)@;
    let directions = all_directions();
    let mut i: usize = 0;
    assert(directions@.take(0) =~= Seq::<Direction>::empty());
    assert(move_collector@ =~= start + king_step_moves(cells, color, king_pos, directions@.take(0)));
    while i < 8
        invariant
            king_pos.wf(),
            i <= 8,
            directions@ == spec_all_directions(),
            cells == board@,
            move_collector@ == start + king_step_moves(cells, color, king_pos, directions@.take(i as int)),
        decreases 8 - i,
    {
        let direction = directions[i];
        let ghost c = move_collector@;
        if let Some(pos_to) = king_pos.step(direction) {
            match board.get_figure(pos_to) {
                Some(figure) => if figure.color != color {
                    move_collector.push(Move::new(king_pos, pos_to, None))
                },
                None => move_collector.push(Move::new(king_pos, pos_to, None)),
            }
        }
        assert(directions@.take(i + 1).drop_last() =~= directions@.take(i as int));
        assert(directions@.take(i + 1).last() == direction);
        assert(move_collector@ =~= start + king_step_moves(cells, color, king_pos, directions@.take(i + 1)));
        i = i + 1;
    }
    assert(directions@.take(8) =~= spec_all_directions());
    let ghost steps = move_collector@;
    if is_queen_side_castling_still_possible {
        if let Some(target_pos) = is_queen_side_castling_allowed(color, king_pos, board) {
            move_collector.push(Move::new(king_pos, target_pos, Some(MoveType::Castling(CastlingType::QueenSide))))
        }
    }
    assert(move_collector@ =~= steps + castling_moves(
        king_pos,
        is_queen_side_castling_still_possible,
        spec_queen_side_castling_allowed(cells, color, king_pos),
        CastlingType::QueenSide,
    ));
    let ghost queen_side = move_collector@;
    if is_king_side_castling_still_possible {
        if let Some(target_pos) = is_king_side_castling_allowed(color, king_pos, board) {
            move_collector.push(Move::new(king_pos, target_pos, Some(MoveType::Castling(CastlingType::KingSide))))
        }
    }
    assert(move_collector@ =~= queen_side + castling_moves(
        king_pos,
        is_king_side_castling_still_possible,
        spec_king_side_castling_allowed(cells, color, king_pos),
        CastlingType::KingSide,
    ));
    assert(move_collector@ =~= start + king_moves(
        cells,
        color,
        king_pos,
        is_queen_side_castling_still_possible,
        is_king_side_castling_still_possible,
    ));
}


/// A move fits a figure of `color` on `pos`: it starts there and ends on a field of the board
/// that holds no figure of `color`.
pub open spec fn move_fits(cells: Seq<Option<Figure>>, color: Color, pos: Position, m: Move) -> bool {
    &&& m.wf()
    &&& m.spec_from() == pos
    &&& m.spec_to().wf()
    &&& !(cells[m.spec_to().index as int] matches Some(f) && f.color == color)
}

pub open spec fn all_fit(cells: Seq<Option<Figure>>, color: Color, pos: Position, moves: Seq<Move>) -> bool {
    forall|k: int| 0 <= k < moves.len() ==> #[trigger] move_fits(cells, color, pos, moves[k])
}

proof fn lemma_fit_concat(cells: Seq<Option<Figure>>, color: Color, pos: Position, a: Seq<Move>, b: Seq<Move>)
    requires
        all_fit(cells, color, pos, a),
        all_fit(cells, color, pos, b),
    ensures
        all_fit(cells, color, pos, a + b),
{
    assert forall|k: int| 0 <= k < (a + b).len() implies #[trigger] move_fits(cells, color, pos, (a + b)[k]) by {
        if k < a.len() {
            assert((a + b)[k] == a[k]);
        } else {
            assert((a + b)[k] == b[k - a.len()]);
        }
    }
}

proof fn lemma_moves_to_fit(cells: Seq<Option<Figure>>, color: Color, pos: Position, targets: Seq<Position>)
    requires
        pos.wf(),
        forall|k: int| 0 <= k < targets.len() ==> {
            let q = #[trigger] targets[k];
            &&& q.wf()
            &&& !(cells[q.index as int] matches Some(f) && f.color == color)
        },
    ensures
        all_fit(cells, color, pos, moves_to(pos, targets)),
{
    assert forall|k: int| 0 <= k < moves_to(pos, targets).len() implies #[trigger] move_fits(
        cells,
        color,
        pos,
        moves_to(pos, targets)[k],
    ) by {
        let q = targets[k];
        crate::base::a_move::lemma_move_new_getters(pos, q, MoveType::Normal);
    }
}

proof fn lemma_directed_fit(cells: Seq<Option<Figure>>, color: Color, pos: Position, dirs: Seq<Direction>)
    requires
        pos.wf(),
        cells.len() == 64,
    ensures
        all_fit(cells, color, pos, directed_moves(cells, color, pos, dirs)),
    decreases dirs.len(),
{
    if dirs.len() > 0 {
        lemma_directed_fit(cells, color, pos, dirs.drop_last());
        lemma_ray_targets_fields(cells, pos, dirs.last(), color);
        lemma_moves_to_fit(cells, color, pos, ray_targets(cells, pos, dirs.last(), color));
        lemma_fit_concat(
            cells,
            color,
            pos,
            directed_moves(cells, color, pos, dirs.drop_last()),
            moves_to(pos, ray_targets(cells, pos, dirs.last(), color)),
        );
    }
}

proof fn lemma_pawn_moves_to_fit(cells: Seq<Option<Figure>>, color: Color, from: Position, to: Position)
    requires
        from.wf(),
        to.wf(),
        !(cells[to.index as int] matches Some(f) && f.color == color),
    ensures
        all_fit(cells, color, from, pawn_moves_to(from, to)),
{
    crate::base::a_move::lemma_move_new_getters(from, to, MoveType::Normal);
    crate::base::a_move::lemma_move_new_getters(from, to, MoveType::PawnPromotion(PromotionType::Queen));
    crate::base::a_move::lemma_move_new_getters(from, to, MoveType::PawnPromotion(PromotionType::Knight));
    assert forall|k: int| 0 <= k < pawn_moves_to(from, to).len() implies #[trigger] move_fits(
        cells,
        color,
        from,
        pawn_moves_to(from, to)[k],
    ) by {}
}

proof fn lemma_pawn_fit(cells: Seq<Option<Figure>>, color: Color, from: Position, en_passant: Option<Position>)
    requires
        from.wf(),
        cells.len() == 64,
    ensures
        all_fit(cells, color, from, pawn_moves(cells, color, from, en_passant)),
{
    let (forward_left, forward, forward_right) = Direction::spec_forward_directions(color);
    assert forall|d: Direction| #![trigger from.spec_step(d)]
        from.spec_step(d) is Some ==> all_fit(cells, color, from, diagonal_pawn_moves(cells, color, from, from.spec_step(d), en_passant)) by {
        if let Some(p) = from.spec_step(d) {
            crate::game::board::lemma_steps_left(from, d);
            match spec_content_type(cells[p.index as int], color) {
                FieldContent::OpponentFigure => lemma_pawn_moves_to_fit(cells, color, from, p),
                FieldContent::Empty => {
                    crate::base::a_move::lemma_move_new_getters(from, p, MoveType::EnPassant);
                },
                FieldContent::OwnFigure => {},
            }
        }
    }
    let d1 = diagonal_pawn_moves(cells, color, from, from.spec_step(forward_left), en_passant);
    let d2 = diagonal_pawn_moves(cells, color, from, from.spec_step(forward_right), en_passant);
    let f = forward_pawn_moves(cells, color, from);
    assert(all_fit(cells, color, from, d1)) by {
        if from.spec_step(forward_left) is None {
            assert(d1 =~= Seq::<Move>::empty());
        }
    }
    assert(all_fit(cells, color, from, d2)) by {
        if from.spec_step(forward_right) is None {
            assert(d2 =~= Seq::<Move>::empty());
        }
    }
    assert(all_fit(cells, color, from, f)) by {
        if let Some(p) = from.spec_step(forward) {
            crate::game::board::lemma_steps_left(from, forward);
            if cells[p.index as int] is None {
                lemma_pawn_moves_to_fit(cells, color, from, p);
                if on_pawn_start_row(from, color) {
                    let dp = p.spec_step(forward)->0;
                    crate::game::board::lemma_steps_left(p, forward);
                    if cells[dp.index as int] is None {
                        lemma_pawn_moves_to_fit(cells, color, from, dp);
                        lemma_fit_concat(cells, color, from, pawn_moves_to(from, p), pawn_moves_to(from, dp));
                    } else {
                        assert(pawn_moves_to(from, p) + Seq::<Move>::empty() =~= pawn_moves_to(from, p));
                    }
                } else {
                    assert(pawn_moves_to(from, p) + Seq::<Move>::empty() =~= pawn_moves_to(from, p));
                }
            }
        }
    }
    lemma_fit_concat(cells, color, from, d1, d2);
    lemma_fit_concat(cells, color, from, d1 + d2, f);
}

proof fn lemma_king_steps_fit(cells: Seq<Option<Figure>>, color: Color, from: Position, dirs: Seq<Direction>)
    requires
        from.wf(),
        cells.len() == 64,
    ensures
        all_fit(cells, color, from, king_step_moves(cells, color, from, dirs)),
    decreases dirs.len(),
{
    if dirs.len() > 0 {
        lemma_king_steps_fit(cells, color, from, dirs.drop_last());
        let last = match from.spec_step(dirs.last()) {
            Some(p) => if spec_content_type(cells[p.index as int], color) != FieldContent::OwnFigure {
                seq![normal_move(from, p)]
            } else {
                Seq::empty()
            },
            None => Seq::empty(),
        };
        if let Some(p) = from.spec_step(dirs.last()) {
            crate::game::board::lemma_steps_left(from, dirs.last());
            crate::base::a_move::lemma_move_new_getters(from, p, MoveType::Normal);
        }
        assert(all_fit(cells, color, from, last));
        lemma_fit_concat(cells, color, from, king_step_moves(cells, color, from, dirs.drop_last()), last);
    }
}

proof fn lemma_king_fit(cells: Seq<Option<Figure>>, color: Color, from: Position, queen_side: bool, king_side: bool)
    requires
        from.wf(),
        cells.len() == 64,
    ensures
        all_fit(cells, color, from, king_moves(cells, color, from, queen_side, king_side)),
{
    lemma_king_steps_fit(cells, color, from, spec_all_directions());
    let row = from.row as int;
    let qs = castling_moves(from, queen_side, spec_queen_side_castling_allowed(cells, color, from), CastlingType::QueenSide);
    let ks = castling_moves(from, king_side, spec_king_side_castling_allowed(cells, color, from), CastlingType::KingSide);
    assert(all_fit(cells, color, from, qs)) by {
        if queen_side && spec_queen_side_castling_allowed(cells, color, from) is Some {
            let t = Position::spec_at(2, row);
            assert(cells[Position::spec_at(2, row).index as int] is None);
            crate::base::a_move::lemma_move_new_getters(from, t, MoveType::Castling(CastlingType::QueenSide));
        }
    }
    assert(all_fit(cells, color, from, ks)) by {
        if king_side && spec_king_side_castling_allowed(cells, color, from) is Some {
            let t = Position::spec_at(6, row);
            assert(cells[Position::spec_at(6, row).index as int] is None);
            crate::base::a_move::lemma_move_new_getters(from, t, MoveType::Castling(CastlingType::KingSide));
        }
    }
    lemma_fit_concat(cells, color, from, king_step_moves(cells, color, from, spec_all_directions()), qs);
    lemma_fit_concat(cells, color, from, king_step_moves(cells, color, from, spec_all_directions()) + qs, ks);
}

/// The moves a figure reaches start on its field and end on a field of the board without a
/// figure of the side to move.
pub proof fn lemma_reachable_moves_of_fit(s: GameStateModel, fig_type: FigureType, pos: Position)
    requires
        pos.wf(),
        s.cells.len() == 64,
    ensures
        all_fit(s.cells, s.turn_by, pos, spec_reachable_moves_of(s, fig_type, pos)),
{
    let cells = s.cells;
    let color = s.turn_by;
    match fig_type {
        FigureType::Pawn => lemma_pawn_fit(cells, color, pos, s.en_passant),
        FigureType::Rook => lemma_directed_fit(cells, color, pos, spec_straight_directions()),
        FigureType::Knight => {
            lemma_knight_targets_fields(cells, pos, color, 0);
            lemma_moves_to_fit(cells, color, pos, knight_targets_from(cells, pos, color, 0));
        },
        FigureType::Bishop => lemma_directed_fit(cells, color, pos, spec_diagonal_directions()),
        FigureType::Queen => lemma_directed_fit(cells, color, pos, spec_all_directions()),
        FigureType::King => match color {
            Color::White => lemma_king_fit(cells, color, pos, s.white_queen_side, s.white_king_side),
            Color::Black => lemma_king_fit(cells, color, pos, s.black_queen_side, s.black_king_side),
        },
    }
}

} // verus!
