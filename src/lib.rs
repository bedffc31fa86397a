pub mod board;
pub mod compass_groups;
pub mod exchangers;
pub mod occupied_squares;
pub mod pid;
pub mod pieces;
pub mod squares;
pub mod text;

pub use crate::board::Board as ChessBoard;
pub use crate::compass_groups::{get_direction, Direction};
pub use crate::pieces::{BasicPieceType, Piece, PieceType, PieceTypeData, Side};
