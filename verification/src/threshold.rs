//! Comparing a luminance with a threshold of the matrix.

use vstd::prelude::*;

verus! {

/// The fixed-point sample that stands for the luminance 1: a sample `s`
/// stands for the luminance `s / LUMA_ONE`.
pub const LUMA_ONE: u64 = 0x1_0000_0000;

/// Which of the two output colours a pixel gets.
#[derive(Clone, Copy, Debug, PartialEq, Eq, Structural)]
pub enum Tone {
    Highlight,
    Shadow,
}

/// The luminance `luma / LUMA_ONE` is greater than one minus the threshold
/// `entry / cells`. Both sides are multiplied by `cells * LUMA_ONE`, so that
/// the comparison is one of integers; a luminance equal to one minus the
/// threshold does not exceed it.
pub open spec fn exceeds(luma: int, entry: int, cells: int) -> bool {
    luma * cells > (cells - entry) * LUMA_ONE
}

/// Highlight where the luminance exceeds one minus the threshold, shadow
/// elsewhere.
pub open spec fn tone_of(luma: int, entry: int, cells: int) -> Tone {
    if exceeds(luma, entry, cells) {
        Tone::Highlight
    } else {
        Tone::Shadow
    }
}

/// Classifies the luminance `luma / LUMA_ONE` against the threshold
/// `entry / cells`, where `entry` is an entry of a matrix of `cells` entries.
pub fn classify(luma: u64, entry: u32, cells: u32) -> (tone: Tone)
    ensures
        tone == tone_of(luma as int, entry as int, cells as int),
{
    assert(0 <= luma * cells <= 0xffff_ffff_ffff_ffff * 0xffff_ffff) by (nonlinear_arith)
        requires
            0 <= luma <= 0xffff_ffff_ffff_ffff,
            0 <= cells <= 0xffff_ffff,
    ;
    let scaled_luma: i128 = (luma as i128) * (cells as i128);
    let rest: i128 = (cells as i128) - (entry as i128);
    let scaled_limit: i128 = rest * 0x1_0000_0000;
    if scaled_luma > scaled_limit {
        Tone::Highlight
    } else {
        Tone::Shadow
    }
}

} // verus!
