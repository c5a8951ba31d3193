//! Renders grayscale rasters as text made of Unicode braille patterns: every
//! 2-column by 4-row block of pixels becomes one braille character.

pub mod braille;
pub mod options;
pub mod phase;
pub mod raster;
pub mod laws;
