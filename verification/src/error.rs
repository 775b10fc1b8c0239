//! Why a configuration or an input grid is refused.

use vstd::prelude::*;

verus! {

/// The reasons for which no dithering is done.
#[derive(Clone, Copy, Debug, PartialEq, Eq, Structural)]
pub enum DitherError {
    /// The level is 0: there is no matrix of that level to dither with.
    ZeroLevel,
    /// The level is above `MAX_LEVEL`: its entries do not fit the matrix's cells.
    LevelTooLarge,
    /// The output width is 0.
    ZeroWidth,
    /// The output height is 0.
    ZeroHeight,
    /// The input grid does not have the configured width and height.
    SizeMismatch,
}

} // verus!
