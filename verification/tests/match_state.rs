use voidchess_engine_rs::engine::{game_end_result_of, DrawReason, GameEndResult, Pruner, StaticEvalType};
use voidchess_engine_rs::game::match_state::MatchState;
use voidchess_engine_rs::game::{MoveStats, StoppedReason};
use voidchess_engine_rs::engine::static_eval::is_protected;
use voidchess_engine_rs::game::GameState;
use voidchess_engine_rs::{Color, Direction, Move, Position};

#[test]
fn match_state_plays_moves() {
    let state = MatchState::new();
    let state = state.do_move("e2-e4".parse::<Move>().unwrap());
    let state = state.do_move("d7-d5".parse::<Move>().unwrap());
    let state = state.do_move("e4-d5".parse::<Move>().unwrap());
    let _ = state.do_move("g8-f6".parse::<Move>().unwrap());
}

#[test]
fn pruner_stops_at_its_depths() {
    let pruner = Pruner::new(2, 3, 4);
    let quiet = MoveStats { did_catch_figure: false, did_move_pawn: false };
    let pawn = MoveStats { did_catch_figure: false, did_move_pawn: true };
    let catch = MoveStats { did_catch_figure: true, did_move_pawn: false };
    assert!(!pruner.should_stop_min_max_ing(3, quiet, quiet));
    assert!(pruner.should_stop_min_max_ing(4, quiet, quiet));
    assert!(!pruner.should_stop_min_max_ing(3, pawn, catch));
    assert!(pruner.should_stop_min_max_ing(4, catch, pawn));
}

#[test]
fn draw_reasons() {
    assert_eq!(DrawReason::from(StoppedReason::InsufficientMaterial), DrawReason::InsufficientMaterial);
    assert_eq!(DrawReason::from(StoppedReason::ThreeTimesRepetition), DrawReason::ThreeTimesRepetition);
    assert_eq!(DrawReason::from(StoppedReason::NoChangeIn50Moves), DrawReason::ThreeTimesRepetition);
    assert!(DrawReason::StaleMate < DrawReason::NoChangeIn50Moves);
    assert_eq!(GameEndResult::Draw(DrawReason::StaleMate), GameEndResult::Draw(DrawReason::StaleMate));
    assert_eq!(StaticEvalType::Default, StaticEvalType::Default);
}

#[test]
fn pawns_are_protected_by_pawns_diagonally_behind() {
    let game_state = "white ♔e1 ♙d2 ♙e3 ♙h4 ♟c6 ♟b7 ♟g5 ♙f6 ♚e8".parse::<GameState>().unwrap();
    let pos = |code: &str| code.parse::<Position>().unwrap();
    let (white_back_left, _, white_back_right) = Direction::forward_directions(Color::Black);
    let (black_back_left, _, black_back_right) = Direction::forward_directions(Color::White);
    assert!(is_protected(&game_state, pos("e3"), Color::White, white_back_left, white_back_right));
    assert!(!is_protected(&game_state, pos("d2"), Color::White, white_back_left, white_back_right));
    assert!(!is_protected(&game_state, pos("h4"), Color::White, white_back_left, white_back_right));
    assert!(is_protected(&game_state, pos("c6"), Color::Black, black_back_left, black_back_right));
    assert!(!is_protected(&game_state, pos("g5"), Color::Black, black_back_left, black_back_right));
    // a pawn of the other color behind does not protect
    assert!(!is_protected(&game_state, pos("f6"), Color::White, white_back_left, white_back_right));
}

#[test]
fn stopped_games_end_as_the_reason_says() {
    assert_eq!(game_end_result_of(StoppedReason::KingInCheckAfterMove), GameEndResult::EngineWon);
    assert_eq!(game_end_result_of(StoppedReason::InsufficientMaterial), GameEndResult::Draw(DrawReason::InsufficientMaterial));
    assert_eq!(game_end_result_of(StoppedReason::ThreeTimesRepetition), GameEndResult::Draw(DrawReason::ThreeTimesRepetition));
    assert_eq!(game_end_result_of(StoppedReason::NoChangeIn50Moves), GameEndResult::Draw(DrawReason::NoChangeIn50Moves));
}
