use voidchess_engine_rs::game::{Game, MoveResult, StoppedReason};
use voidchess_engine_rs::{ErrorKind, Move, Position};

//♔♕♗♘♖♙♚♛♝♞♜♟

fn is_insufficient_material(game_config: &str, next_move: &str) -> bool {
    let game = game_config.parse::<Game>().unwrap();
    let next_move = next_move.parse::<Move>().unwrap();
    let move_result = game.play(next_move);
    matches!(move_result, MoveResult::Stopped(StoppedReason::InsufficientMaterial, _))
}

#[test]
fn game_ends_because_of_insufficient_material() {
    assert!(is_insufficient_material("white ♔e1 ♜f1 ♚e8", "e1-f1"));
    assert!(is_insufficient_material("white ♔e1 ♜f1 ♘b1 ♘g1 ♚e8 ♞b8 ♞g8", "e1-f1"));
    assert!(is_insufficient_material("white ♔e1 ♜f1 ♗b1 ♚e8 ♞b8 ♞g8", "e1-f1"));
    assert!(is_insufficient_material("white ♔e1 ♜f1 ♗b1 ♚e8 ♝g8", "e1-f1"));
}

#[test]
fn game_goes_on_with_sufficient_material() {
    assert!(!is_insufficient_material("white ♔e1 ♜f1 ♘b1 ♘g1 ♚e8 ♞b8 ♞g8 ♞h8", "e1-f1"));
    assert!(!is_insufficient_material("white ♔e1 ♜f1 ♚e8 ♞b8 ♞g8 ♞h8", "e1-f1"));
    assert!(!is_insufficient_material("white ♔e1 ♜f1 ♗b1 ♘g8 ♚e8", "e1-f1"));
    assert!(!is_insufficient_material("white ♔e1 ♜f1 ♗b1 ♗g8 ♚e8", "e1-f1"));
    assert!(!is_insufficient_material("white ♔e1 ♖b1 ♚e8", "e1-f1"));
    assert!(!is_insufficient_material("white ♔e1 ♛b1 ♚e8", "e1-f1"));
    assert!(!is_insufficient_material("white ♔e1 ♙b2 ♚e8", "e1-f1"));
    assert!(!is_insufficient_material("white ♔e1 ♙a2 ♙b2 ♙c2 ♙d2 ♙e2 ♙f2 ♚e8", "e1-f1"));
    // because the king is in check after the move
    assert!(!is_insufficient_material("white ♔a1 ♟a2 ♚a3", "a1-a2"));
}

fn stop_reason_of(game_config: &str) -> StoppedReason {
    match game_config.parse::<Game>() {
        Err(err) => match err.kind {
            ErrorKind::HighLevelErr(reason) => reason,
            other => panic!("expected HighLevelErr but got {:?}", other),
        },
        Ok(_) => panic!("expected HighLevelErr but got game"),
    }
}

#[test]
fn parsing_a_stopped_game_names_the_reason() {
    assert_eq!(stop_reason_of("white ♔h8 ♚f8 ♞a7"), StoppedReason::InsufficientMaterial);
    assert_eq!(stop_reason_of("black ♔h8 ♚f8 ♛g7"), StoppedReason::KingInCheckAfterMove);
    assert_eq!(
        stop_reason_of("b1-c3 b8-c6 c3-b1 c6-b8 b1-c3 b8-c6 c3-b1 c6-b8 b1-c3"),
        StoppedReason::ThreeTimesRepetition
    );
    assert_eq!(
        stop_reason_of("b1-c3 b8-c6 c3-b1 c6-b8 b1-c3 b8-c6 c3-b1 c6-b8"),
        StoppedReason::ThreeTimesRepetition
    );
}

fn fen_of(game_config: &str) -> String {
    game_config.parse::<Game>().unwrap().get_fen()
}

#[test]
fn fen_of_games() {
    assert_eq!(fen_of(""), "rnbqkbnr/pppppppp/8/8/8/8/PPPPPPPP/RNBQKBNR w KQkq - 0 1");
    assert_eq!(fen_of("e2-e4"), "rnbqkbnr/pppppppp/8/8/4P3/8/PPPP1PPP/RNBQKBNR b KQkq e3 0 1");
    assert_eq!(fen_of("e2-e4 e7-e5"), "rnbqkbnr/pppp1ppp/8/4p3/4P3/8/PPPP1PPP/RNBQKBNR w KQkq e6 0 2");
    assert_eq!(fen_of("b1-a3 g8-h6 g1-h3"), "rnbqkb1r/pppppppp/7n/8/8/N6N/PPPPPPPP/R1BQKB1R b KQkq - 3 2");
    assert_eq!(fen_of("b1-a3 g8-h6 a1-b1"), "rnbqkb1r/pppppppp/7n/8/8/N7/PPPPPPPP/1RBQKBNR b Kkq - 3 2");
    assert_eq!(fen_of("b1-a3 g8-h6 a1-b1 h8-g8"), "rnbqkbr1/pppppppp/7n/8/8/N7/PPPPPPPP/1RBQKBNR w Kq - 4 3");
    assert_eq!(fen_of("white ♔d1 ♖h1 ♚e8"), "4k3/8/8/8/8/8/8/3K3R w - - 0 1");
    assert_eq!(fen_of("black ♖a1 ♔e1 ♖h1 ♜a8 ♚e8 ♜h8"), "r3k2r/8/8/8/8/8/8/R3K2R b KQkq - 0 1");
}

#[test]
fn playing_counts_half_moves() {
    let game = Game::classic();
    assert_eq!(game.get_half_moves_played(), 0);
    assert!(game.get_latest_move().is_none());
    let e2e4 = "e2-e4".parse::<Move>().unwrap();
    match game.play(e2e4) {
        MoveResult::Ongoing(next, stats) => {
            assert_eq!(next.get_half_moves_played(), 1);
            assert_eq!(next.get_latest_move(), Some(e2e4));
            assert!(stats.did_move_pawn);
            assert!(!stats.did_catch_figure);
            assert_eq!(next.get_reachable_moves().len(), 20);
            assert!(next.is_passive_king_pos("e1".parse::<Position>().unwrap()));
            assert!(!next.is_active_king_in_check());
        },
        MoveResult::Stopped(reason, _) => panic!("stopped: {:?}", reason),
    }
}

#[test]
fn illegal_moves_and_codes_are_errors() {
    assert_eq!("e3-e4".parse::<Game>().unwrap_err().kind, ErrorKind::IllegalMove);
    assert_eq!("e2-e44".parse::<Game>().map(|g| g.get_half_moves_played()).unwrap(), 1);
    assert_eq!("e2-e4 e7xe5".parse::<Game>().unwrap_err().kind, ErrorKind::IllegalFormat);
    assert_eq!("e2+e4".parse::<Game>().unwrap_err().kind, ErrorKind::IllegalConfig);
}

#[test]
fn mate_is_recognized() {
    let game = "e2-e4 e7-e5 f1-c4 d7-d6 d1-f3 c7-c5 f3-f7".parse::<Game>().unwrap();
    assert!(game.is_active_king_in_check());
    assert!(game.is_active_king_checkmate());
    let game = "e2-e4 f7-f5 d1-h5".parse::<Game>().unwrap();
    assert!(game.is_active_king_in_check());
    assert!(!game.is_active_king_checkmate());
}

#[test]
fn game_as_text() {
    let game = "white ♔e1 ♚e8 ♖a1".parse::<Game>().unwrap();
    let expected = "white's turn\n____♚___ 8\n________ 7\n________ 6\n________ 5\n________ 4\n________ 3\n________ 2\n♖___♔___ 1\nabcdefgh\n\n\n";
    assert_eq!(game.to_string(), expected);
    assert_eq!(game.clone().get_fen(), game.get_fen());
}

#[test]
fn a_game_whose_side_to_move_has_more_than_sixteen_figures_is_refused() {
    let mut desc = String::from("white ♔e1 ♚e8");
    for row in 2..=4 {
        for column in ['a', 'b', 'c', 'd', 'e', 'f'] {
            desc.push_str(&format!(" ♙{}{}", column, row));
        }
    }
    assert_eq!(desc.parse::<Game>().unwrap_err().kind, ErrorKind::IllegalConfig);
    // the same figures with the other side to move make a game
    let game = desc.replacen("white", "black", 1).parse::<Game>().unwrap();
    assert!(!game.moves_keep_sides_fitting());
}
