//! Rule engine for a Quarto-style board game: a 4x4 grid of cells, pieces
//! carrying four binary properties, and the win detection that decides
//! whether any row, column, diagonal or (optionally) 2x2 sub-square is
//! fully occupied by pieces sharing at least one property value.

pub mod error;
pub mod field;
pub mod laws;
pub mod parse;
pub mod piece;

pub use error::GameError;
pub use field::{Field, Pos};
pub use parse::try_parse_pos;
pub use piece::{Piece, Property};
