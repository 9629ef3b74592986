pub mod castling;
pub mod check_search;
pub mod count_reachable;
pub mod reachable;
pub mod checkmate;
pub mod allowed;
pub mod symmetry;
pub mod move_symmetry;
pub mod checkmate_symmetry;
pub mod defence_symmetry;
pub mod attack_laws;
pub mod intercept_laws;
