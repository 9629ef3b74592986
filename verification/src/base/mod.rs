pub mod a_move;
pub mod color;
pub mod direction;
pub mod errors;
pub mod position;
pub mod rc_list;
pub mod text;

pub use color::{Color, Deactivatable};
pub use direction::Direction;
pub use errors::{ChessError, ErrorKind};
pub use position::Position;
