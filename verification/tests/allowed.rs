use voidchess_engine_rs::figure::functions::allowed::get_allowed_moves;
use voidchess_engine_rs::Move;

//♔♕♗♘♖♙♚♛♝♞♜♟

#[test]
fn allowed_move_counts() {
    assert_eq!(get_allowed_moves("").len(), 20);
    assert_eq!(get_allowed_moves("white ♔a1 ♚h8").len(), 0);
    assert_eq!(get_allowed_moves("white ♔a1 ♖h1 ♚h8").len(), 0);
    assert_eq!(get_allowed_moves("white ♔a1 ♖g1 ♚h8").len(), 16);
    assert_eq!(get_allowed_moves("white ♔e1 ♖h1 ♚g8").len(), 15);
    assert_eq!(get_allowed_moves("white ♔e1 ♖a1 ♚g8").len(), 16);
    assert_eq!(get_allowed_moves("white ♔e1 ♖h1 ♚g8 ♝c4").len(), 12);
    assert_eq!(get_allowed_moves("white ♔e1 ♖h1 ♚g8 ♝c3").len(), 4);
    assert_eq!(get_allowed_moves("white ♔e1 ♖h1 ♚g8 ♝d2").len(), 5);
}

fn contains(game_config: &str, move_code: &str) -> bool {
    get_allowed_moves(game_config).contains(&move_code.parse::<Move>().unwrap())
}

#[test]
fn allowed_moves_contain() {
    assert!(contains("white ♔e1 ♙a7 ♚g8", "a7Qa8"));
    assert!(contains("white ♔e1 ♖a1 ♚g8", "e1Cc1"));
    assert!(contains("white ♔e1 ♖h1 ♚g8", "e1cg1"));
    assert!(contains("a2-a4 a7-a6 a4-a5 b7-b5", "a5eb6"));
}

#[test]
fn allowed_moves_do_not_contain() {
    assert!(!contains("white ♔e1 ♙a7 ♚g8", "a7-a8"));
    assert!(!contains("white ♔e1 ♙a7 ♚g8", "a7Ra8"));
    assert!(!contains("white ♔e1 ♙a7 ♚g8", "a7Ka8"));
    assert!(!contains("white ♔e1 ♙a7 ♚g8", "a7Ba8"));
}

#[test]
fn no_moves_for_a_configuration_that_is_no_game() {
    assert!(get_allowed_moves("white ♔a1").is_empty());
    assert!(get_allowed_moves("e2-e9").is_empty());
}
