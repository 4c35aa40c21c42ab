pub mod attacks;
pub mod bitboard;
pub mod bits;
pub mod piece;
pub mod square;
pub mod state;

pub use attacks::{attacked_squares_for, attacked_squares_for_color};
pub use bitboard::Bitboard;
pub use piece::{Color, PieceType};
pub use square::Square;
pub use state::State;
