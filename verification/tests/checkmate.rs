use voidchess_engine_rs::figure::functions::check_search::Attack;
use voidchess_engine_rs::figure::functions::checkmate::{get_attack_situation, is_active_king_checkmate, AttackerNumber};
use voidchess_engine_rs::game::GameState;
use voidchess_engine_rs::{Direction, Move, Position};

//♔♕♗♘♖♙♚♛♝♞♜♟

fn check_mate(game_state_config: &str, move_config: &str, expected_is_mate: bool) {
    let latest_move = move_config.parse::<Move>().unwrap();
    let (game_state, _) = game_state_config.parse::<GameState>().unwrap().do_move(latest_move);
    let king_pos = game_state.get_active_king();
    let color = game_state.turn_by;

    let actual_is_mate = is_active_king_checkmate(king_pos, color, &game_state, latest_move);
    assert_eq!(actual_is_mate, expected_is_mate);

    let actual_is_mate_toggled = is_active_king_checkmate(
        king_pos.toggle_row(),
        color.toggle(),
        &game_state.toggle_colors(),
        latest_move.toggle_rows(),
    );
    assert_eq!(actual_is_mate_toggled, expected_is_mate);
}

#[test]
fn checkmates() {
    check_mate("e2-e4 e7-e5 f1-c4 d7-d6 d1-f3 c7-c5", "f3-f7", true);
    check_mate("e2-e4 f7-f5 e4-f5 g7-g5", "d1-h5", true);
    check_mate("white ♔e1 ♖a7 ♖b7 ♚e8", "a7-a8", true);
    check_mate("black ♔f1 ♖e1 ♖g1 ♙e2 ♙g2 ♚e8 ♜h8", "e8cg8", true);
}

#[test]
fn no_checkmate() {
    check_mate("e2-e4 f7-f5", "d1-h5", false);
}

fn attack_situation(game_state_config: &str, move_config: &str) -> AttackerNumber {
    let latest_move = move_config.parse::<Move>().unwrap();
    let (game_state, _) = game_state_config.parse::<GameState>().unwrap().do_move(latest_move);
    let king_pos = game_state.get_active_king();
    let color = game_state.turn_by;
    get_attack_situation(king_pos, color, &game_state, latest_move)
}

fn pos(code: &str) -> Position {
    code.parse::<Position>().unwrap()
}

#[test]
fn attack_situations() {
    assert_eq!(attack_situation("e2-e4 e7-e5", "d1-h5"), AttackerNumber::Zero);
    assert_eq!(attack_situation("e2-e4 f7-f5", "d1-h5"), AttackerNumber::One(Attack::OnLine(Direction::DownRight, 3)));
    assert_eq!(
        attack_situation("e2-e4 e7-e5 f1-c4 d7-d6 d1-f3 c7-c5", "f3-f7"),
        AttackerNumber::One(Attack::OnLine(Direction::DownRight, 1))
    );
    assert_eq!(attack_situation("white ♔e1 ♖a7 ♖b7 ♚e8", "a7-a8"), AttackerNumber::One(Attack::OnLine(Direction::Left, 4)));
    assert_eq!(attack_situation("white ♔e1 ♕a1 ♚b8", "a1-a8"), AttackerNumber::One(Attack::OnLine(Direction::Left, 1)));
    assert_eq!(attack_situation("white ♔e1 ♕a1 ♚c8", "a1-a8"), AttackerNumber::One(Attack::OnLine(Direction::Left, 2)));
    assert_eq!(attack_situation("white ♔e1 ♕a1 ♚b8", "a1-a7"), AttackerNumber::One(Attack::OnLine(Direction::DownLeft, 1)));
    assert_eq!(
        attack_situation("black ♔f1 ♖e1 ♖g1 ♙e2 ♙g2 ♚e8 ♜h8", "e8cg8"),
        AttackerNumber::One(Attack::OnLine(Direction::Up, 7))
    );
    assert_eq!(attack_situation("black ♔f1 Eb3 ♙b4 ♟c4 ♚e8 ♝a6", "c4eb3"), AttackerNumber::One(Attack::OnLine(Direction::UpLeft, 5)));
    assert_eq!(attack_situation("black ♔c2 Eb3 ♙b4 ♟c4 ♚e8", "c4eb3"), AttackerNumber::One(Attack::ByPawn(pos("b3"))));
    assert_eq!(attack_situation("black ♔e1 ♝a2 ♞a1 ♚e8", "a1-c2"), AttackerNumber::One(Attack::ByKnight(pos("c2"))));
    assert_eq!(attack_situation("black ♔f1 ♜a1 ♞b1 ♚e8", "b1-d2"), AttackerNumber::Two);
    assert_eq!(attack_situation("black ♔f1 ♜a1 ♝b1 ♚e8", "b1-d3"), AttackerNumber::Two);
    assert_eq!(attack_situation("black ♔c2 Eb3 ♙b4 ♟c4 ♜c5 ♚e8", "c4eb3"), AttackerNumber::Two);
    assert_eq!(attack_situation("black ♔c3 Eb3 ♙b4 ♟c4 ♜c5 ♝a5 ♚e8", "c4eb3"), AttackerNumber::Two);
}

#[test]
fn attacker_number_from_two_possibilities() {
    let a = Attack::ByKnight(pos("c2"));
    let b = Attack::ByPawn(pos("b3"));
    assert_eq!(AttackerNumber::from_two_possibilities(None, None), AttackerNumber::Zero);
    assert_eq!(AttackerNumber::from_two_possibilities(Some(a), None), AttackerNumber::One(a));
    assert_eq!(AttackerNumber::from_two_possibilities(None, Some(b)), AttackerNumber::One(b));
    assert_eq!(AttackerNumber::from_two_possibilities(Some(a), Some(b)), AttackerNumber::Two);
}

#[test]
fn a_pinned_figure_cannot_intercept() {
    // the black bishop on d5 could block on g8, but the queen on e4 pins it to the king on a8
    check_mate("white ♔e1 ♖h1 ♕e4 ♘b5 ♘a5 ♚a8 ♝d5", "h1-h8", true);
    // without the queen the bishop can block
    check_mate("white ♔e1 ♖h1 ♘b5 ♘a5 ♘c5 ♚a8 ♝d5", "h1-h8", false);
}
