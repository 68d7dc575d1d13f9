//! The failures that scoring and configuration report.

use vstd::prelude::*;

verus! {

/// An input on which a score is not defined.
#[derive(Clone, Copy, Debug, PartialEq, Eq, Structural)]
pub enum DegenerateInputError {
    /// A blob with no area, no width or no height.
    ZeroDimensionBlob,
    /// Component weights that sum to zero.
    ZeroTotalWeight,
    /// Two quantities whose mean is zero, so that their similarity has no value.
    ZeroMean,
}

/// A parameter or a colour range that cannot be used.
#[derive(Clone, Copy, Debug, PartialEq, Eq, Structural)]
pub enum ConfigurationError {
    /// A parameter outside the range it may take.
    OutOfRange,
    /// A colour range that is not six comma-separated integers.
    MalformedColorRange,
}

} // verus!
