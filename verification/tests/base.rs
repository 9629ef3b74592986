use voidchess_engine_rs::base::direction::all_directions;
use voidchess_engine_rs::figure::functions::count_reachable::count_reachable_moves;
use voidchess_engine_rs::game::Board;
use voidchess_engine_rs::{Color, Deactivatable, Direction, ErrorKind, Figure, FigureType, Position};

#[test]
fn position_codes_round_trip() {
    for index in 0..64 {
        let pos = Position::from_index_unchecked(index);
        let code = pos.to_string();
        assert_eq!(code.parse::<Position>().unwrap(), pos);
        assert_eq!(pos.index, index);
    }
    assert_eq!(Position::from_code("e4"), Position::new_unchecked(4, 3));
}

#[test]
fn position_parse_errors() {
    assert_eq!("i1".parse::<Position>().unwrap_err().kind, ErrorKind::IllegalFormat);
    assert_eq!("a9".parse::<Position>().unwrap_err().kind, ErrorKind::IllegalFormat);
    assert_eq!("a".parse::<Position>().unwrap_err().kind, ErrorKind::IllegalFormat);
    assert!(Position::new_checked(8, 0).is_none());
    assert_eq!(Position::new_checked(7, 7), Some(Position::from_code("h8")));
}

#[test]
fn position_steps_and_jumps() {
    let e4 = Position::from_code("e4");
    assert_eq!(e4.step(Direction::UpRight), Some(Position::from_code("f5")));
    assert_eq!(Position::from_code("h4").step(Direction::Right), None);
    assert_eq!(e4.step_unchecked(Direction::Down), Position::from_code("e3"));
    assert_eq!(e4.jump(1, 2), Some(Position::from_code("f6")));
    assert_eq!(Position::from_code("a1").jump(-1, 2), None);
    assert_eq!(e4.get_row_distance(Position::from_code("e7")), 3);
    assert_eq!(e4.toggle_row(), Position::from_code("e5"));
    assert!(Position::from_code("c1").is_on_ground_row(Color::White));
    assert!(!Position::from_code("c1").is_on_ground_row(Color::Black));
    assert!(e4.is_reachable_by_knight(Position::from_code("d6")));
    assert!(!e4.is_reachable_by_knight(Position::from_code("d5")));
}

#[test]
fn every_step_can_be_undone() {
    for index in 0..64 {
        let pos = Position::from_index_unchecked(index);
        for d in all_directions() {
            if let Some(next) = pos.step(d) {
                assert_eq!(next.step(d.reverse()), Some(pos));
                assert_eq!(pos.get_direction(next), Some(d));
            }
        }
    }
}

#[test]
fn directions() {
    assert_eq!(Direction::forward_directions(Color::White), (Direction::UpLeft, Direction::Up, Direction::UpRight));
    assert_eq!(Direction::forward_directions(Color::Black), (Direction::DownLeft, Direction::Down, Direction::DownRight));
    assert_eq!(Direction::Up.reverse(), Direction::Down);
    assert!(Direction::Left.is_straight());
    assert!(!Direction::Left.is_diagonal());
    assert!(Direction::DownLeft.is_diagonal());
    assert_eq!(Position::from_code("a1").get_direction(Position::from_code("h8")), Some(Direction::UpRight));
    assert_eq!(Position::from_code("a1").get_direction(Position::from_code("b3")), None);
}

#[test]
fn colors() {
    assert_eq!(Color::White.toggle(), Color::Black);
    assert_eq!(Color::White.toggle().toggle(), Color::White);
    assert_eq!(Color::White.get_fen_char(), 'w');
    assert_eq!(Color::Black.get_fen_char(), 'b');
    assert_eq!(Color::Black.to_string(), "black");
}

#[test]
fn deactivatable_stays_deactivated() {
    let mut d = Deactivatable::new(true);
    assert!(d.get_value());
    d.deactivate();
    assert!(!d.get_value());
    d.deactivate();
    assert!(!d.get_value());
}

#[test]
fn figure_symbols_round_trip() {
    for symbol in ["♔", "♕", "♗", "♘", "♖", "♙", "♚", "♛", "♝", "♞", "♜", "♟"] {
        let figure = symbol.parse::<Figure>().unwrap();
        assert_eq!(figure.to_string(), symbol);
    }
    assert_eq!("♙".parse::<Figure>().unwrap(), Figure { fig_type: FigureType::Pawn, color: Color::White });
    assert_eq!("♞".parse::<Figure>().unwrap().get_fen_char(), 'n');
    assert_eq!("♘".parse::<Figure>().unwrap().get_fen_char(), 'N');
    assert_eq!("x".parse::<Figure>().unwrap_err().kind, ErrorKind::IllegalFormat);
}

#[test]
fn board_basics() {
    let mut board = Board::empty();
    let e4 = Position::from_code("e4");
    assert!(board.is_empty(e4));
    let queen = Figure { fig_type: FigureType::Queen, color: Color::Black };
    assert!(!board.set_figure(e4, queen));
    assert_eq!(board.get_figure(e4), Some(queen));
    assert!(board.contains_figure(e4, FigureType::Queen, Color::Black));
    assert!(board.set_figure(e4, queen));
    board.clear_field(e4);
    assert!(board.is_empty(e4));
    // clearing an empty field changes nothing
    let before = board.encode();
    board.clear_field(e4);
    assert!(board.is_empty(e4));
    assert_eq!(board.encode(), before);
}

#[test]
fn classic_board() {
    let board = Board::classic();
    assert_eq!(board.get_figure(Position::from_code("d1")), Some(Figure { fig_type: FigureType::Queen, color: Color::White }));
    assert_eq!(board.get_figure(Position::from_code("e8")), Some(Figure { fig_type: FigureType::King, color: Color::Black }));
    assert!(board.contains_sufficient_material_to_continue());
    let white = board.get_all_figures_of_color(Color::White);
    assert!(white.iter().all(|f| f.is_some()));
    assert_eq!(white[0], Some((Figure { fig_type: FigureType::Rook, color: Color::White }, Position::from_code("a1"))));
    assert!(board.are_intermediate_pos_free(Position::from_code("a1"), Direction::Up, Position::from_code("a2")));
    assert!(!board.are_intermediate_pos_free(Position::from_code("a1"), Direction::Up, Position::from_code("a3")));
}

#[test]
fn equal_boards_encode_equally_and_different_ones_differently() {
    let a = Board::classic();
    let b = Board::classic();
    assert_eq!(a.encode(), b.encode());
    let mut c = Board::classic();
    c.clear_field(Position::from_code("e2"));
    assert_ne!(a.encode(), c.encode());
}

#[test]
fn reachable_move_counts_on_the_classic_board() {
    let board = Board::classic();
    // a3 and c3, and the five jumps that leave the board count too
    assert_eq!(count_reachable_moves(FigureType::Knight, Color::White, Position::from_code("b1"), &board), 7);
    assert_eq!(count_reachable_moves(FigureType::Rook, Color::White, Position::from_code("a1"), &board), 0);
    assert_eq!(Position::from_code("e4").count_reachable_directed_positions(Color::White, Direction::Up, &board), 3);
    let positions: Vec<Position> = {
        let mut it = Position::from_code("e4").reachable_directed_positions(Color::White, Direction::Up, &board);
        let mut v = Vec::new();
        while let Some(p) = it.next() {
            v.push(p);
        }
        v
    };
    assert_eq!(positions, vec![Position::from_code("e5"), Position::from_code("e6"), Position::from_code("e7")]);
}

#[test]
fn board_as_text() {
    let expected = "\n♜♞♝♛♚♝♞♜ 8\n♟♟♟♟♟♟♟♟ 7\n________ 6\n________ 5\n________ 4\n________ 3\n♙♙♙♙♙♙♙♙ 2\n♖♘♗♕♔♗♘♖ 1\nabcdefgh\n";
    assert_eq!(Board::classic().to_string(), expected);
}
