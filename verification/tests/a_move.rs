use voidchess_engine_rs::base::a_move::Moves;
use voidchess_engine_rs::{CastlingType, Move, MoveType, Position, PromotionType};

#[test]
fn test_move_combine_state() {
    let a_move = Move::combine_state(
        Position::from_code("a2").index,
        Position::from_code("c4").index,
        Some(MoveType::PawnPromotion(PromotionType::Bishop)).unwrap().as_state(),
    );
    assert_eq!(a_move.from(), Position::from_code("a2"), "from");
    assert_eq!(a_move.to(), Position::from_code("c4"), "to");
    assert_eq!(a_move.move_type(), MoveType::PawnPromotion(PromotionType::Bishop), "move_type");
}

#[test]
fn test_move_new_and_getter() {
    let a_move = Move::new(
        Position::from_code("a2"),
        Position::from_code("c4"),
        Some(MoveType::PawnPromotion(PromotionType::Knight)),
    );
    assert_eq!(a_move.from(), Position::from_code("a2"), "from");
    assert_eq!(a_move.to(), Position::from_code("c4"), "to");
    assert_eq!(a_move.move_type(), MoveType::PawnPromotion(PromotionType::Knight), "move_type");

    let b_move = Move::new(Position::from_code("h8"), Position::from_code("h1"), None);
    assert_eq!(b_move.from(), Position::from_code("h8"), "from");
    assert_eq!(b_move.to(), Position::from_code("h1"), "to");
    assert_eq!(b_move.move_type(), MoveType::Normal, "move_type");
}

#[test]
fn test_move_toggle_row() {
    let a_move = Move::new(
        Position::from_code("a2"),
        Position::from_code("d5"),
        Some(MoveType::Castling(CastlingType::QueenSide)),
    );
    let toggled_move = a_move.toggle_rows();

    assert_eq!(toggled_move.from(), Position::from_code("a7"), "from");
    assert_eq!(toggled_move.to(), Position::from_code("d4"), "to");
    assert_eq!(toggled_move.move_type(), MoveType::Castling(CastlingType::QueenSide), "move_type");

    assert_eq!(toggled_move.toggle_rows(), a_move, "double toggle");
}

#[test]
fn combine_state_packs_from_to_and_type() {
    // from in the lowest six bits, to in the next six, the move type above
    let a_move = Move::combine_state(1, 2, 3);
    assert_eq!(a_move.from().index, 1);
    assert_eq!(a_move.to().index, 2);
    assert_eq!(a_move.move_type().as_state(), 3);
}

#[test]
fn move_codes_round_trip() {
    for code in ["e2-e4", "a7Qa8", "a7Ka8", "a7Ra8", "a7Ba8", "e1cg1", "e1Cc1", "a5eb6"] {
        let a_move = code.parse::<Move>().unwrap();
        assert_eq!(a_move.to_string(), code);
    }
}

#[test]
fn move_parse_rejects_bad_codes() {
    assert!("e2-e9".parse::<Move>().is_err());
    assert!("e2xe4".parse::<Move>().is_err());
    assert!("e2-e".parse::<Move>().is_err());
}

#[test]
fn move_types_round_trip_through_their_state() {
    for mt in [
        MoveType::Normal,
        MoveType::EnPassant,
        MoveType::Castling(CastlingType::KingSide),
        MoveType::Castling(CastlingType::QueenSide),
        MoveType::PawnPromotion(PromotionType::Queen),
        MoveType::PawnPromotion(PromotionType::Rook),
        MoveType::PawnPromotion(PromotionType::Bishop),
        MoveType::PawnPromotion(PromotionType::Knight),
    ] {
        assert_eq!(MoveType::from_state(mt.as_state()), mt);
    }
}

#[test]
fn moves_collect_in_order() {
    let mut moves = Moves::new();
    let a = "e2-e4".parse::<Move>().unwrap();
    let b = "d2-d4".parse::<Move>().unwrap();
    moves.push(a);
    moves.push(b);
    assert_eq!(moves.len(), 2);
    assert_eq!(moves.get(0), a);
    assert_eq!(moves.get(1), b);
    assert!(moves.contains(b));
    assert!(!moves.contains("a2-a3".parse::<Move>().unwrap()));
    moves.swap(0, 1);
    assert_eq!(moves.to_vec(), vec![b, a]);
    assert_eq!(moves.clone().to_vec(), vec![b, a]);
}
