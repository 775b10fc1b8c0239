//! Ordered (Bayer) dithering of a luminance grid into two colours.
//!
//! A [`DitherBuilder`] collects the size of the output, the level of the
//! threshold matrix and the two colours. Its `generate` takes the luminance
//! of each pixel, in fixed point, and answers with a grid in which each pixel
//! is the highlight colour where its luminance exceeds one minus the
//! threshold at its place, and the shadow colour elsewhere.

pub mod array;
pub mod bayer;
pub mod config;
pub mod dither;
pub mod error;
pub mod grid;
pub mod matrix;
pub mod threshold;

pub use config::{Config, Resize};
pub use dither::{dither_pixel, process, DitherBuilder};
pub use error::DitherError;
pub use grid::{Grid, LumaGrid, PixelGrid, Rgb};
pub use matrix::{BayerMatrix, MAX_LEVEL};
pub use threshold::{classify, Tone, LUMA_ONE};
