use voidchess_engine_rs::figure::functions::reachable::for_reachable_knight_moves;
use voidchess_engine_rs::base::a_move::Moves;
use voidchess_engine_rs::figure::FigureAndPosition;
use voidchess_engine_rs::game::{Board, GameState};
use voidchess_engine_rs::{Color, ErrorKind, FigureType, Move, Position};

//♔♕♗♘♖♙♚♛♝♞♜♟

#[test]
fn test_game_state_toggle_colors() {
    let game_state = "white ♔b1 ♜h2 Eh6 ♟h5 ♚g7".parse::<GameState>().unwrap();
    let white_move = "b1-c1".parse::<Move>().unwrap();
    assert_eq!(game_state.turn_by, Color::White);
    assert_eq!(game_state.get_passive_king_pos(), "g7".parse::<Position>().unwrap());
    assert_eq!(game_state.en_passant_intercept_pos.unwrap(), "h6".parse::<Position>().unwrap());
    // do_move includes some runtime validation
    game_state.do_move(white_move);

    let toggled_game_state = game_state.toggle_colors();
    assert_eq!(toggled_game_state.turn_by, Color::Black);
    assert_eq!(toggled_game_state.get_passive_king_pos(), "g2".parse::<Position>().unwrap(), "game_state {:?}", &toggled_game_state);
    assert_eq!(toggled_game_state.en_passant_intercept_pos.unwrap(), "h3".parse::<Position>().unwrap(), "game_state {:?}", &toggled_game_state);
    toggled_game_state.do_move(white_move.toggle_rows());
}

#[test]
fn testing_for_reachable_knight_moves() {
    let mut move_collection = Moves::new();
    for_reachable_knight_moves(
        Color::White,
        "b1".parse::<Position>().unwrap(),
        &Board::classic(),
        &mut move_collection,
    );
    assert_eq!(move_collection.len(), 2);
}

fn check_reachable_moves(game_config: &str, expected: usize) {
    let game_state = game_config.parse::<GameState>().unwrap();
    assert_eq!(game_state.get_reachable_moves().len(), expected, "white: {}", game_config);
    assert_eq!(game_state.toggle_colors().get_reachable_moves().len(), expected, "black: {}", game_config);
}

#[test]
fn reachable_moves_at_the_start() {
    check_reachable_moves("", 20);
}

#[test]
fn reachable_moves_after_some_moves() {
    check_reachable_moves("e2-e4 e7-e5", 29);
    check_reachable_moves("e2-e4 a7-a6", 30);
    check_reachable_moves("e2-e4 b7-b5", 29);
}

#[test]
fn reachable_moves_with_en_passant() {
    check_reachable_moves("a2-a4 a7-a6 a4-a5 b7-b5", 22);
    check_reachable_moves("white ♔a1 ♙b5 ♟a6 Ec6 ♟c5 ♚e8", 6);
}

#[test]
fn reachable_moves_with_and_without_castling() {
    check_reachable_moves("white ♖a2 ♔e2 ♖h2 ♚e8", 27);
    check_reachable_moves("white ♖a1 ♔e1 ♖h1 ♚e8", 26);
    check_reachable_moves("white ♖a1 ♔e1 ♖h1 ♙a2 ♜h2 ♚e8", 15);
}

#[test]
fn reachable_moves_may_take_the_king() {
    check_reachable_moves("white ♔a1 ♚c1", 3);
    check_reachable_moves("white ♔a1 ♚b1", 3);
}

fn check_catches_figure(game_config: &str, next_move: &str, expected: bool) {
    let game_state = game_config.parse::<GameState>().unwrap();
    let white_move = next_move.parse::<Move>().unwrap();
    let (_, move_stats) = game_state.do_move(white_move);
    assert_eq!(move_stats.did_catch_figure, expected, "white catches figure");
    let toggled_game_state = game_state.toggle_colors();
    let (_, move_stats) = toggled_game_state.do_move(white_move.toggle_rows());
    assert_eq!(move_stats.did_catch_figure, expected, "black catches figure");
}

#[test]
fn do_move_reports_catches() {
    check_catches_figure("white ♔e1 ♖h1 ♙a2 ♜h2 ♚e8", "e1-d1", false);
    check_catches_figure("white ♔e1 ♖h1 ♙a2 ♜h2 ♚e8", "e1-h1", false);
    check_catches_figure("white ♔e1 ♖h1 ♙a2 ♜h2 ♚e8", "a2-a3", false);
    check_catches_figure("white ♔e1 ♖h1 ♙a2 ♜h2 ♚e8", "a2-a4", false);
    check_catches_figure("white ♔e1 ♖h1 ♙a2 ♜h2 ♚e8", "h1-h2", true);
    check_catches_figure("b2-b4 a7-a6 b4-b5 c7-c5", "b5-c6", true);
    check_catches_figure("b2-b4 a7-a6 b4-b5 c7-c5", "b5-a6", true);
}

fn check_is_check(game_config: &str, expected: bool) {
    let game_state = game_config.parse::<GameState>().unwrap();
    assert_eq!(game_state.is_active_king_in_check(), expected, "provided game_state");
    assert_eq!(game_state.toggle_colors().is_active_king_in_check(), expected, "toggled game_state");
}

#[test]
fn active_king_in_check() {
    check_is_check("black ♔b6 ♙a7 ♚a8", false);
    check_is_check("white ♔h8 ♚f8 ♜e7 ♟e6 ♟d7", false);
    check_is_check("white ♔g3 ♖d1 ♚g1 ♙c2 ♙d3", false);
    check_is_check("black ♔g3 ♖d1 ♚g1 ♙c2 ♙d3", true);
    check_is_check("black ♔g3 ♘e2 ♚g1 ♙c2 ♙d3", true);
    check_is_check("black ♔g3 ♗e3 ♚g1 ♙c2 ♙d3", true);
    check_is_check("black ♔a1 ♚e4 ♙d3", true);
    check_is_check("black ♔a1 ♚c4 ♙d3", true);
    check_is_check("black ♔a1 ♚e2 ♙d3", false);
    check_is_check("black ♔a1 ♚c2 ♙d3", false);
}

#[test]
fn turn_by_is_read() {
    assert_eq!("black ♔b6 ♙a7 ♚a8".parse::<GameState>().unwrap().turn_by, Color::Black);
    assert_eq!("white ♔h8 ♚f8 ♜e7 ♟e6 ♟d7".parse::<GameState>().unwrap().turn_by, Color::White);
}

#[test]
fn parse_errors_name_their_kind() {
    assert_eq!("green ♔a1 ♚c1".parse::<GameState>().unwrap_err().kind, ErrorKind::IllegalConfig);
    assert_eq!("white ♔a1 ♚c1 Ea3 Eb3".parse::<GameState>().unwrap_err().kind, ErrorKind::IllegalConfig);
    assert_eq!("white ♔a1 ♚c1 Ea9".parse::<GameState>().unwrap_err().kind, ErrorKind::IllegalFormat);
    assert_eq!("white ♔a1 ♚c1 X9".parse::<GameState>().unwrap_err().kind, ErrorKind::IllegalFormat);
    assert_eq!("e2-e9".parse::<GameState>().unwrap_err().kind, ErrorKind::IllegalFormat);
    assert_eq!("e3-e4".parse::<GameState>().unwrap_err().kind, ErrorKind::IllegalMove);
    assert_eq!("white ♔a1 ♚c1 ♜c1".parse::<GameState>().unwrap_err().kind, ErrorKind::IllegalConfig);
    assert_eq!("white ♔a1 ♙c1 ♚c3".parse::<GameState>().unwrap_err().kind, ErrorKind::IllegalConfig);
    assert_eq!("white ♔a1 ♔c1 ♚c3".parse::<GameState>().unwrap_err().kind, ErrorKind::IllegalConfig);
    assert_eq!("white ♔a1".parse::<GameState>().unwrap_err().kind, ErrorKind::IllegalConfig);
    assert_eq!("white ♔a1 ♚c3 Ec6".parse::<GameState>().unwrap_err().kind, ErrorKind::IllegalConfig);
    assert_eq!("white ♔a1 ♚c3 Ec5".parse::<GameState>().unwrap_err().kind, ErrorKind::IllegalConfig);
}

#[test]
fn two_en_passant_fields_are_refused() {
    let err = "white ♔a1 ♙b5 ♟a6 Ec6 ♟c5 Ec6 ♚e8".parse::<GameState>().unwrap_err();
    assert_eq!(err.kind, ErrorKind::IllegalConfig);
}

#[test]
fn blank_description_is_the_classic_start() {
    let game_state = "   ".parse::<GameState>().unwrap();
    assert_eq!(game_state.get_fen_part1to4(), "rnbqkbnr/pppppppp/8/8/8/8/PPPPPPPP/RNBQKBNR w KQkq -");
}

#[test]
fn from_manual_config_sets_castling_rights() {
    let figures = vec![
        "♖a1".parse::<FigureAndPosition>().unwrap(),
        "♔e1".parse::<FigureAndPosition>().unwrap(),
        "♜h8".parse::<FigureAndPosition>().unwrap(),
        "♚e8".parse::<FigureAndPosition>().unwrap(),
    ];
    let game_state = GameState::from_manual_config(Color::Black, None, figures).unwrap();
    assert_eq!(game_state.get_fen_part1to4(), "4k2r/8/8/8/8/8/8/R3K3 b Qk -");
}

#[test]
fn toggling_twice_gives_the_state_back() {
    let game_state = "white ♔a1 ♙b5 ♟a6 Ec6 ♟c5 ♚e8".parse::<GameState>().unwrap();
    let twice = game_state.toggle_colors().toggle_colors();
    assert_eq!(twice.get_fen_part1to4(), game_state.get_fen_part1to4());
    assert_eq!(game_state.toggle_colors().get_fen_part1to4(), "k7/8/8/8/1pP5/P7/8/4K3 b - c3");
}

#[test]
fn reachable_moves_start_on_own_figures_and_end_elsewhere() {
    for config in ["", "e2-e4 e7-e5 g1-f3 b8-c6", "white ♖a1 ♔e1 ♖h1 ♙a2 ♜h2 ♚e8", "white ♔a1 ♙b5 ♟a6 Ec6 ♟c5 ♚e8"] {
        let game_state = config.parse::<GameState>().unwrap();
        let moves = game_state.get_reachable_moves().to_vec();
        for m in moves {
            let from = game_state.board.get_figure(m.from()).unwrap();
            assert_eq!(from.color, game_state.turn_by);
            if let Some(to) = game_state.board.get_figure(m.to()) {
                assert_ne!(to.color, game_state.turn_by);
            }
        }
    }
}

#[test]
fn moves_keep_one_king_per_side() {
    let mut game_state = GameState::classic();
    for code in ["e2-e4", "d7-d5", "e4-d5", "d8-d5", "g1-f3", "c8-g4", "f1-e2", "b8-c6", "e1cg1", "e8Cc8"] {
        let m = code.parse::<Move>().unwrap();
        assert!(game_state.is_move_possible(m), "{}", code);
        game_state = game_state.do_move(m).0;
    }
    assert_eq!(game_state.get_fen_part1to4(), "2kr1bnr/ppp1pppp/2n5/3q4/6b1/5N2/PPPPBPPP/RNBQ1RK1 w - -");
}

#[test]
fn a_king_moving_onto_its_rook_castles() {
    let game_state = "white ♔e1 ♖h1 ♙a2 ♜h2 ♚e8".parse::<GameState>().unwrap();
    let pos = |code: &str| code.parse::<Position>().unwrap();
    let (next, stats) = game_state.do_move("e1-h1".parse::<Move>().unwrap());
    assert!(!stats.did_catch_figure);
    assert!(!stats.did_move_pawn);
    assert!(next.board.contains_figure(pos("g1"), FigureType::King, Color::White));
    assert!(next.board.contains_figure(pos("f1"), FigureType::Rook, Color::White));
    assert!(next.board.is_empty(pos("e1")));
    assert!(next.board.is_empty(pos("h1")));
    assert_eq!(next.get_passive_king_pos(), pos("g1"));
    assert!(game_state.do_move("h1-h2".parse::<Move>().unwrap()).1.did_catch_figure);

    let queen_side = "white ♖a1 ♔e1 ♚e8".parse::<GameState>().unwrap();
    let (next, stats) = queen_side.do_move("e1-a1".parse::<Move>().unwrap());
    assert!(!stats.did_catch_figure);
    assert!(next.board.contains_figure(pos("c1"), FigureType::King, Color::White));
    assert!(next.board.contains_figure(pos("d1"), FigureType::Rook, Color::White));
    assert!(next.board.is_empty(pos("a1")));
}

#[test]
fn from_manual_config_accepts_more_than_sixteen_figures() {
    let mut figures = vec![
        "♔e1".parse::<FigureAndPosition>().unwrap(),
        "♚e8".parse::<FigureAndPosition>().unwrap(),
    ];
    for row in 2..=4 {
        for column in ['a', 'b', 'c', 'd', 'e', 'f'] {
            figures.push(format!("♙{}{}", column, row).parse::<FigureAndPosition>().unwrap());
        }
    }
    let game_state = GameState::from_manual_config(Color::Black, None, figures).unwrap();
    assert_eq!(game_state.board.count_figures_of_color(Color::White), 19);
    assert_eq!(game_state.board.count_figures_of_color(Color::Black), 1);
    assert!(!game_state.is_active_king_in_check());
}

#[test]
fn taking_en_passant_needs_no_pawn_on_the_taken_field() {
    let game_state = "e2-e4 e7-e3".parse::<GameState>().unwrap();
    let pos = |code: &str| code.parse::<Position>().unwrap();
    assert!(game_state.board.contains_figure(pos("e3"), FigureType::Pawn, Color::Black));
    assert!(game_state.board.contains_figure(pos("e4"), FigureType::Pawn, Color::White));
    assert!(game_state.board.is_empty(pos("e7")));
}

#[test]
fn a_king_moving_onto_its_figure_on_the_castling_field_ends_beside_it() {
    let game_state = "white ♔e1 ♘g1 ♚e8".parse::<GameState>().unwrap();
    let pos = |code: &str| code.parse::<Position>().unwrap();
    let m = "e1-g1".parse::<Move>().unwrap();
    assert!(game_state.is_move_possible(m));
    assert!(game_state.is_rook_on_king_target(m));
    let (next, stats) = game_state.do_move(m);
    assert!(!stats.did_catch_figure);
    assert!(next.board.contains_figure(pos("f1"), FigureType::King, Color::White));
    assert!(next.board.is_empty(pos("g1")));
    assert!(next.board.is_empty(pos("e1")));
    assert_eq!(next.get_passive_king_pos(), pos("g1"));
}

#[test]
fn reachable_moves_of_reached_states_can_be_made() {
    for config in ["", "e2-e4 d7-d5 e4-d5 c7-c5", "white ♖a1 ♔e1 ♖h1 ♙a2 ♜h2 ♚e8", "black ♜a8 ♚e8 ♜h8 ♙b4 ♟a4 Eb3 ♔e1"] {
        let game_state = config.parse::<GameState>().unwrap();
        let moves = game_state.get_reachable_moves().to_vec();
        assert!(!moves.is_empty());
        for m in moves {
            assert!(game_state.is_move_possible(m), "{} in {}", m.to_string(), config);
            assert!(!game_state.is_rook_on_king_target(m), "{} in {}", m.to_string(), config);
            game_state.do_move(m);
        }
    }
}
