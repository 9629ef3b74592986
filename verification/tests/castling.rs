use voidchess_engine_rs::figure::functions::castling::{is_king_side_castling_allowed, is_queen_side_castling_allowed};
use voidchess_engine_rs::game::GameState;
use voidchess_engine_rs::game::game_state::{black_king_starting_position, white_king_starting_position};
use voidchess_engine_rs::Color;

//♔♕♗♘♖♙♚♛♝♞♜♟

fn check_queen_side(game_config_testing_white: &str, expected_castling_is_allowed: bool) {
    let game_state = game_config_testing_white.parse::<GameState>().unwrap();
    let white_castling_is_allowed = is_queen_side_castling_allowed(Color::White, white_king_starting_position(), &game_state.board).is_some();
    assert_eq!(white_castling_is_allowed, expected_castling_is_allowed, "testing: {}", game_config_testing_white);

    let black_castling_is_allowed = is_queen_side_castling_allowed(Color::Black, black_king_starting_position(), &game_state.toggle_colors().board).is_some();
    assert_eq!(black_castling_is_allowed, expected_castling_is_allowed, "testing inverted of: {}", game_config_testing_white);
}

fn check_king_side(game_config_testing_white: &str, expected_castling_is_allowed: bool) {
    let game_state = game_config_testing_white.parse::<GameState>().unwrap();
    let white_castling_is_allowed = is_king_side_castling_allowed(Color::White, white_king_starting_position(), &game_state.board).is_some();
    assert_eq!(white_castling_is_allowed, expected_castling_is_allowed, "testing: {}", game_config_testing_white);

    let black_castling_is_allowed = is_king_side_castling_allowed(Color::Black, black_king_starting_position(), &game_state.toggle_colors().board).is_some();
    assert_eq!(black_castling_is_allowed, expected_castling_is_allowed, "testing inverted of: {}", game_config_testing_white);
}

#[test]
fn test_is_queen_side_castling_allowed_in_classical_config() {
    check_queen_side("white ♖a1 ♔e1 ♚e8", true);
    check_queen_side("white ♖a1 ♔e1 ♚c2", false);
    check_queen_side("white ♖a1 ♔e1 ♚d2", false);
    check_queen_side("white ♖a1 ♔e1 ♚e2", false);
    check_queen_side("white ♖a1 ♔e1 ♚f2", false);
    check_queen_side("white ♖a1 ♔e1 ♚f1", false);
    check_queen_side("white ♖a1 ♔e1 ♚b3", true);
    check_queen_side("white ♖a1 ♔e1 ♚c3", true);
    check_queen_side("white ♖a1 ♔e1 ♚d3", true);
    check_queen_side("white ♖a1 ♔e1 ♚e3", true);
    check_queen_side("white ♖a1 ♔e1 ♚f3", true);
    check_queen_side("white ♖a1 ♔e1 ♟a2 ♚e8", true);
    check_queen_side("white ♖a1 ♔e1 ♟b2 ♚e8", false);
    check_queen_side("white ♖a1 ♔e1 ♟c2 ♚e8", false);
    check_queen_side("white ♖a1 ♔e1 ♟d2 ♚e8", false);
    check_queen_side("white ♖a1 ♔e1 ♟e2 ♚e8", false);
    check_queen_side("white ♖a1 ♔e1 ♟f2 ♚e8", false);
    check_queen_side("white ♖a1 ♔e1 ♟g2 ♚e8", true);
    check_queen_side("white ♖a1 ♔e1 ♟a3 ♚e8", true);
    check_queen_side("white ♖a1 ♔e1 ♟b3 ♚e8", true);
    check_queen_side("white ♖a1 ♔e1 ♟c3 ♚e8", true);
    check_queen_side("white ♖a1 ♔e1 ♟d3 ♚e8", true);
    check_queen_side("white ♖a1 ♔e1 ♟e3 ♚e8", true);
    check_queen_side("white ♖a1 ♔e1 ♟f3 ♚e8", true);
    check_queen_side("white ♖a1 ♔e1 ♟g3 ♚e8", true);
    check_queen_side("white ♖a1 ♔e1 ♗f1 ♚e8", true);
    check_queen_side("white ♖a1 ♗b1 ♔e1 ♚e8", false);
    check_queen_side("white ♖a1 ♗c1 ♔e1 ♚e8", false);
    check_queen_side("white ♖a1 ♗d1 ♔e1 ♚e8", false);
    check_queen_side("white ♖a1 ♔e1 ♝a2 ♚e8", true);
    check_queen_side("white ♖a1 ♔e1 ♝a3 ♚e8", false);
    check_queen_side("white ♖a1 ♔e1 ♝a4 ♚e8", false);
    check_queen_side("white ♖a1 ♔e1 ♝a5 ♚e8", false);
    check_queen_side("white ♖a1 ♔e1 ♝a6 ♚e8", true);
    check_queen_side("white ♖a1 ♔e1 ♛a2 ♚e8", true);
    check_queen_side("white ♖a1 ♔e1 ♛a3 ♚e8", false);
    check_queen_side("white ♖a1 ♔e1 ♛a4 ♚e8", false);
    check_queen_side("white ♖a1 ♔e1 ♛a5 ♚e8", false);
    check_queen_side("white ♖a1 ♔e1 ♛a6 ♚e8", true);
    check_queen_side("white ♖a1 ♔e1 ♛b7 ♚e8", true);
    check_queen_side("white ♖a1 ♔e1 ♛c7 ♚e8", false);
    check_queen_side("white ♖a1 ♔e1 ♛d7 ♚e8", false);
    check_queen_side("white ♖a1 ♔e1 ♛e7 ♚e8", false);
    check_queen_side("white ♖a1 ♔e1 ♛f7 ♚e8", true);
    check_queen_side("white ♖a1 ♔e1 ♛h1 ♚e8", false);
    check_queen_side("white ♖a1 ♔e1 ♜h1 ♚e8", false);
    check_queen_side("white ♖a1 ♔e1 ♜a7 ♚e8", true);
    check_queen_side("white ♖a1 ♔e1 ♜b7 ♚e8", true);
    check_queen_side("white ♖a1 ♔e1 ♜c7 ♚e8", false);
    check_queen_side("white ♖a1 ♔e1 ♜d7 ♚e8", false);
    check_queen_side("white ♖a1 ♔e1 ♜e7 ♚e8", false);
    check_queen_side("white ♖a1 ♔e1 ♜f7 ♚e8", true);
}

#[test]
fn test_is_king_side_castling_allowed_in_classical_config() {
    check_king_side("white ♔e1 ♖h1 ♚e8", true);
    check_king_side("white ♔e1 ♖h1 ♚d2", false);
    check_king_side("white ♔e1 ♖h1 ♚e2", false);
    check_king_side("white ♔e1 ♖h1 ♚f2", false);
    check_king_side("white ♔e1 ♖h1 ♚g2", false);
    check_king_side("white ♔e1 ♖h1 ♚h2", false);
    check_king_side("white ♔e1 ♖h1 ♚d1", false);
    check_king_side("white ♔e1 ♖h1 ♚d3", true);
    check_king_side("white ♔e1 ♖h1 ♚e3", true);
    check_king_side("white ♔e1 ♖h1 ♚f3", true);
    check_king_side("white ♔e1 ♖h1 ♚g3", true);
    check_king_side("white ♔e1 ♖h1 ♚h3", true);
    check_king_side("white ♔e1 ♖h1 ♟d2 ♚e8", false);
    check_king_side("white ♔e1 ♖h1 ♟e2 ♚e8", false);
    check_king_side("white ♔e1 ♖h1 ♟f2 ♚e8", false);
    check_king_side("white ♔e1 ♖h1 ♟g2 ♚e8", false);
    check_king_side("white ♔e1 ♖h1 ♟h2 ♚e8", false);
    check_king_side("white ♔e1 ♖h1 ♟d3 ♚e8", true);
    check_king_side("white ♔e1 ♖h1 ♟e3 ♚e8", true);
    check_king_side("white ♔e1 ♖h1 ♟f3 ♚e8", true);
    check_king_side("white ♔e1 ♖h1 ♟g3 ♚e8", true);
    check_king_side("white ♔e1 ♖h1 ♟h3 ♚e8", true);
    check_king_side("white ♔e1 ♖h1 ♗c1 ♚e8", true);
    check_king_side("white ♔e1 ♖h1 ♗f1 ♚e8", false);
    check_king_side("white ♔e1 ♖h1 ♗g1 ♚e8", false);
    check_king_side("white ♔e1 ♖h1 ♝h2 ♚e8", false);
    check_king_side("white ♔e1 ♖h1 ♝h3 ♚e8", false);
    check_king_side("white ♔e1 ♖h1 ♝h4 ♚e8", false);
    check_king_side("white ♔e1 ♖h1 ♝h5 ♚e8", true);
    check_king_side("white ♔e1 ♖h1 ♝d3 ♚e8", false);
    check_king_side("white ♔e1 ♖h1 ♛h2 ♚e8", false);
    check_king_side("white ♔e1 ♖h1 ♛h3 ♚e8", false);
    check_king_side("white ♔e1 ♖h1 ♛h4 ♚e8", false);
    check_king_side("white ♔e1 ♖h1 ♛h5 ♚e8", true);
    check_king_side("white ♔e1 ♖h1 ♛d3 ♚e8", false);
    check_king_side("white ♔e1 ♖h1 ♛d7 ♚e8", true);
    check_king_side("white ♔e1 ♖h1 ♛e7 ♚e8", false);
    check_king_side("white ♔e1 ♖h1 ♛f7 ♚e8", false);
    check_king_side("white ♔e1 ♖h1 ♛g7 ♚e8", false);
    check_king_side("white ♔e1 ♖h1 ♛h7 ♚e8", true);
    check_king_side("white ♔e1 ♖h1 ♛a1 ♚e8", false);
    check_king_side("white ♔e1 ♖h1 ♜d7 ♚e8", true);
    check_king_side("white ♔e1 ♖h1 ♜e7 ♚e8", false);
    check_king_side("white ♔e1 ♖h1 ♜f7 ♚e8", false);
    check_king_side("white ♔e1 ♖h1 ♜g7 ♚e8", false);
    check_king_side("white ♔e1 ♖h1 ♜h7 ♚e8", true);
}
