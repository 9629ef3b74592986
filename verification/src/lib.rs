pub mod base;
pub mod engine;
pub mod figure;
pub mod game;

pub use base::{ChessError, Color, Deactivatable, Direction, ErrorKind, Position};
pub use base::a_move::{CastlingType, Move, MoveType, PromotionType};
pub use figure::{Figure, FigureType};
pub use game::StoppedReason;
