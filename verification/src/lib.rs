//! Core of a chess engine: bitboard coordinate algebra, piece encoding,
//! leaper attack tables, a position cache, and a line-oriented UCI
//! command interpreter.

pub mod board;
pub mod cache;
pub mod color;
pub mod errors;
pub mod coordinates;
pub mod movegen;
pub mod piece;
pub mod strutil;
pub mod uci;
pub mod tables;

pub use board::Board;
pub use board::Move;
pub use cache::Cache;
pub use cache::Evaluation;
pub use color::Color;
pub use errors::ChessError;
pub use coordinates::BitsCounter;
pub use coordinates::Coordinate;
pub use coordinates::CoordinateWalker;
pub use coordinates::File;
pub use coordinates::Rank;
pub use coordinates::Square;
pub use coordinates::ToBb;
pub use piece::Piece;
pub use piece::Role;
pub use tables::Magic;
pub use uci::Config;
pub use uci::Error;
pub use uci::State;
pub use uci::TimeControl;
pub use uci::Zorro;
