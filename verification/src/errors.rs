//! Errors of the nested chess-literal parsers.

use vstd::prelude::*;

verus! {

/// A malformed chess literal: a FEN field, a side letter, or a square name.
#[derive(Copy, Clone, Debug, PartialEq, Eq, Structural)]
pub enum ChessError {
    InvalidFen,
    InvalidColor,
    InvalidSquare,
}

} // verus!
