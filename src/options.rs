use vstd::prelude::*;

verus! {

/// How pixels are told apart into ink and background.
#[derive(Clone, Copy, Debug, PartialEq, Eq, Structural)]
pub enum ThresholdMethod {
    /// Ink is any intensity above the given value.
    Fixed(u8),
    /// Ink is what imageproc's adaptive threshold, with the given block radius,
    /// leaves above a fixed level.
    Adaptive(u32),
}

/// The threshold applied to the adaptive transform's output.
pub const ADAPTIVE_THRESHOLD: u8 = 150;

/// The threshold used when none is asked for.
pub const DEFAULT_THRESHOLD: u8 = 127;

/// The command line: the image's path, an optional width to scale it to, and
/// at most one of a fixed threshold and an adaptive block radius.
#[derive(Debug, PartialEq, Eq)]
pub struct Args {
    pub path: String,
    pub width: Option<u32>,
    pub threshold: Option<u8>,
    pub block_radius: Option<u32>,
}

impl Args {
    /// The method asked for: the adaptive one when a block radius is given,
    /// else the fixed one with the given threshold, else with the default.
    pub fn threshold_method(&self) -> (r: ThresholdMethod)
        ensures
            r == (match (self.block_radius, self.threshold) {
                (Some(b), _) => ThresholdMethod::Adaptive(b),
                (None, Some(t)) => ThresholdMethod::Fixed(t),
                (None, None) => ThresholdMethod::Fixed(DEFAULT_THRESHOLD),
            }),
    {
        let mut method = ThresholdMethod::Fixed(DEFAULT_THRESHOLD);
        if let Some(threshold) = self.threshold {
            method = ThresholdMethod::Fixed(threshold);
        }
        if let Some(block_radius) = self.block_radius {
            method = ThresholdMethod::Adaptive(block_radius);
        }
        method
    }
}

} // verus!
