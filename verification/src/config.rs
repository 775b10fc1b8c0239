//! The configuration of a dithering run, and the one place where it is checked.

use crate::error::DitherError;
use crate::grid::Rgb;
use crate::matrix::MAX_LEVEL;
use vstd::prelude::*;

verus! {

/// How the output size is set.
#[derive(Clone, Copy, Debug, PartialEq, Eq, Structural)]
pub enum Resize {
    /// Width and height are both multiplied by `numerator / denominator` and
    /// rounded down. A zero denominator scales both to 0.
    Scale { numerator: u32, denominator: u32 },
    /// Width and height are set to the given values.
    Resolution { width: u32, height: u32 },
}

/// Everything that a dithering run is told: the size of the output, the level
/// of the threshold matrix, and the two colours.
#[derive(Clone, Copy, Debug, PartialEq, Eq, Structural)]
pub struct Config {
    pub width: u32,
    pub height: u32,
    pub level: u8,
    pub highlights: Rgb,
    pub shadows: Rgb,
}

/// `length * numerator / denominator`, rounded down and held to what a `u32`
/// can hold; 0 where the denominator is 0.
pub open spec fn scaled_length(length: nat, numerator: nat, denominator: nat) -> nat {
    if denominator == 0 {
        0
    } else if length * numerator / denominator > u32::MAX {
        u32::MAX as nat
    } else {
        length * numerator / denominator
    }
}

/// The width that `resize` gives to an output of width `width`.
pub open spec fn resized_width(width: u32, resize: Resize) -> u32 {
    match resize {
        Resize::Scale { numerator, denominator } => scaled_length(
            width as nat,
            numerator as nat,
            denominator as nat,
        ) as u32,
        Resize::Resolution { width: w, height: _ } => w,
    }
}

/// The height that `resize` gives to an output of height `height`.
pub open spec fn resized_height(height: u32, resize: Resize) -> u32 {
    match resize {
        Resize::Scale { numerator, denominator } => scaled_length(
            height as nat,
            numerator as nat,
            denominator as nat,
        ) as u32,
        Resize::Resolution { width: _, height: h } => h,
    }
}

/// Why a configuration is refused, or `None` if it is valid. The level is
/// looked at first, then the width, then the height.
pub open spec fn config_error(config: Config) -> Option<DitherError> {
    if config.level == 0 {
        Some(DitherError::ZeroLevel)
    } else if config.level > MAX_LEVEL {
        Some(DitherError::LevelTooLarge)
    } else if config.width == 0 {
        Some(DitherError::ZeroWidth)
    } else if config.height == 0 {
        Some(DitherError::ZeroHeight)
    } else {
        None
    }
}

/// Scales one length of the output by `numerator / denominator`.
pub fn scale_length(length: u32, numerator: u32, denominator: u32) -> (scaled: u32)
    ensures
        scaled == scaled_length(length as nat, numerator as nat, denominator as nat),
{
    if denominator == 0 {
        0
    } else {
        assert(0 <= length * numerator <= 0xffff_ffff * 0xffff_ffff) by (nonlinear_arith)
            requires
                0 <= length <= 0xffff_ffff,
                0 <= numerator <= 0xffff_ffff,
        ;
        let product: u64 = (length as u64) * (numerator as u64);
        let quotient: u64 = product / (denominator as u64);
        if quotient > 0xffff_ffff {
            0xffff_ffff
        } else {
            quotient as u32
        }
    }
}

impl Config {
    /// The configuration that leaves an image of the given size as large as
    /// it is: level 2, white highlights and black shadows.
    pub fn new(width: u32, height: u32) -> (config: Config)
        ensures
            config == (Config {
                width,
                height,
                level: 2,
                highlights: Rgb(255, 255, 255),
                shadows: Rgb(0, 0, 0),
            }),
    {
        Config { width, height, level: 2, highlights: Rgb(255, 255, 255), shadows: Rgb(0, 0, 0) }
    }

    /// Checks the configuration: the level lies from 1 to `MAX_LEVEL`, and
    /// neither the width nor the height is 0.
    pub fn validate(&self) -> (checked: Result<(), DitherError>)
        ensures
            checked == (match config_error(*self) {
                Some(e) => Err::<(), DitherError>(e),
                None => Ok::<(), DitherError>(()),
            }),
    {
        if self.level == 0 {
            Err(DitherError::ZeroLevel)
        } else if self.level > MAX_LEVEL {
            Err(DitherError::LevelTooLarge)
        } else if self.width == 0 {
            Err(DitherError::ZeroWidth)
        } else if self.height == 0 {
            Err(DitherError::ZeroHeight)
        } else {
            Ok(())
        }
    }
}

} // verus!
