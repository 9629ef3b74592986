use vstd::prelude::*;
use crate::base::a_move::{Move, MoveType, PromotionType};
use crate::game::{moves_keep_sides_fitting, spec_play, Game, GameModel, MoveResult, PlayOutcome, StoppedReason};
use crate::game::board::{count_where, of_color};
use crate::game::notation::spec_parse_game;
use crate::base::text::{push_char, push_str};

verus! {

/// Whether playing the move keeps the own king out of check: the move can be made, and playing
/// it does not stop the game because the king could be taken.
pub open spec fn spec_is_not_bound(g: GameModel, m: Move) -> bool {
    &&& g.state.can_do_move(m)
    &&& !g.state.rook_on_king_target(m)
    &&& g.half_moves_played < usize::MAX
    &&& match spec_play(g, m) {
        PlayOutcome::Ongoing(_, _) => true,
        PlayOutcome::Stopped(reason, _) => reason != StoppedReason::KingInCheckAfterMove,
    }
}

/// Of the pawn promotions only the one to a queen is offered.
pub open spec fn is_offered_promotion(m: Move) -> bool {
    match m.spec_move_type() {
        MoveType::PawnPromotion(promo_type) => promo_type == PromotionType::Queen,
        _ => true,
    }
}

/// The moves among `moves` that are not bound and offered, in order.
pub open spec fn allowed_among(g: GameModel, moves: Seq<Move>) -> Seq<Move>
    decreases moves.len(),
{
    if moves.len() == 0 {
        Seq::empty()
    } else {
        allowed_among(g, moves.drop_last()) + if spec_is_not_bound(g, moves.last()) && is_offered_promotion(
            moves.last(),
        ) {
            seq![moves.last()]
        } else {
            Seq::empty()
        }
    }
}

/// The moves a player may make in the game the configuration describes: none if it describes
/// no game, otherwise the reachable moves that do not leave the own king in check, with pawns
/// promoting only to queens.
pub open spec fn spec_allowed_moves(game_config: Seq<char>) -> Seq<Move> {
    match spec_parse_game(game_config) {
        Err(_) => Seq::empty(),
        Ok(g) => allowed_among(g, g.state.reachable_moves()),
    }
}

pub fn get_allowed_moves(game_config: &str) -> (r: Vec<Move>)
    requires
        spec_parse_game(game_config@) matches Ok(g) ==> moves_keep_sides_fitting(g.state),
    ensures
        r@ == spec_allowed_moves(game_config@),
{
    let mut movable_moves: Vec<Move> = Vec::new();
    let game = match Game::parse(game_config) {
        Err(_) => {
            return movable_moves;
        },
        Ok(game) => game,
    };
    let ghost g = game.model();
    let reachable_moves = game.get_reachable_moves();
    let n = reachable_moves.len();
    let mut i: usize = 0;
    assert(reachable_moves@.take(0) =~= Seq::<Move>::empty());
    while i < n
        invariant
            g == game.model(),
            n == reachable_moves@.len(),
            reachable_moves@ == g.state.reachable_moves(),
            moves_keep_sides_fitting(g.state),
            i <= n,
            movable_moves@ == allowed_among(g, reachable_moves@.take(i as int)),
        decreases n - i,
    {
        let a_move = reachable_moves.get(i);
        assert(reachable_moves@.take(i + 1).drop_last() =~= reachable_moves@.take(i as int));
        let is_offered = match a_move.move_type() {
            MoveType::PawnPromotion(promo_type) => promo_type == PromotionType::Queen,
            _ => true,
        };
        if is_not_bound(&game, a_move) && is_offered {
            movable_moves.push(a_move);
        }
        assert(movable_moves@ =~= allowed_among(g, reachable_moves@.take(i + 1)));
        i = i + 1;
    }
    assert(reachable_moves@.take(n as int) =~= reachable_moves@);
    movable_moves
}

fn is_not_bound(game: &Game, a_move: Move) -> (r: bool)
    requires
        game.model().state.can_do_move(a_move) ==> count_where(
            game.model().state.cells_after(a_move),
            of_color(game.model().state.turn_by.spec_toggle()),
        ) <= 16,
    ensures
        r == spec_is_not_bound(game.model(), a_move),
{
    if !game.get_game_state().is_move_possible(a_move) || game.get_game_state().is_rook_on_king_target(a_move) {
        return false;
    }
    if game.get_half_moves_played() == usize::MAX {
        return false;
    }
    match game.play(a_move) {
        MoveResult::Ongoing(_, _) => true,
        MoveResult::Stopped(reason, _) => reason != StoppedReason::KingInCheckAfterMove,
    }
}


/// The codes of the moves, each in double quotes, separated by ", ".
pub open spec fn quoted_codes(moves: Seq<Move>) -> Seq<char>
    decreases moves.len(),
{
    if moves.len() == 0 {
        Seq::empty()
    } else {
        quoted_codes(moves.drop_last()) + (if moves.len() > 1 {
            seq![',', ' ']
        } else {
            Seq::empty()
        }) + seq!['"'] + moves.last().spec_code() + seq!['"']
    }
}

/// The allowed moves as a list of quoted move codes, like `["e2-e4", "d2-d4"]`.
pub fn get_concatenated_allowed_moves(game_config: &str) -> (r: String)
    requires
        spec_parse_game(game_config@) matches Ok(g) ==> moves_keep_sides_fitting(g.state),
    ensures
        r@ == seq!['['] + quoted_codes(spec_allowed_moves(game_config@)) + seq![']'],
{
    let moves = get_allowed_moves(game_config);
    let mut text = String::new();
    push_char(&mut text, '[');
    let mut i: usize = 0;
    while i < moves.len()
        invariant
            i <= moves@.len(),
            moves@ == spec_allowed_moves(game_config@),
            text@ == seq!['['] + quoted_codes(moves@.take(i as int)),
        decreases moves@.len() - i,
    {
        let ghost before = text@;
        assert(moves@.take(i + 1).drop_last() =~= moves@.take(i as int));
        if i > 0 {
            push_char(&mut text, ',');
            push_char(&mut text, ' ');
        }
        push_char(&mut text, '"');
        let code = moves[i].to_string();
        push_str(&mut text, code.as_str());
        push_char(&mut text, '"');
        assert(text@ =~= seq!['['] + quoted_codes(moves@.take(i + 1)));
        i = i + 1;
    }
    assert(moves@.take(moves@.len() as int) =~= moves@);
    push_char(&mut text, ']');
    text
}

} // verus!
