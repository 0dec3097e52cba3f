//! The ways in which a call on a board can be refused.

use vstd::prelude::*;

verus! {

/// Why a board operation was refused.
#[derive(Clone, Copy, Debug, PartialEq, Eq, Structural)]
pub enum BoardError {
    /// A board was asked for with a width or a height of zero.
    ZeroDimension,
    /// A cell sequence or a pixel buffer does not hold `width * height` items.
    LengthMismatch,
    /// A coordinate lies outside the board.
    OutOfRange,
}

} // verus!
