//! Tracking of two colour markers by pairing their blobs.
//!
//! Each frame yields the blobs of two markers. Every blob of one marker is
//! scored against every blob of the other, and the best pair that reaches a
//! minimum score gives the position that the frame resolves to. All scores
//! are exact rational numbers, and every function states what it computes
//! over the real numbers that they denote.
//!
//! - [`natural`] and [`rational`]: exact arithmetic.
//! - [`similarity`]: the similarity ratio of two numbers.
//! - [`blob`]: blob records, and the filter that keeps the regions worth
//!   pairing.
//! - [`params`]: the parameters an operator tunes, and their sliders.
//! - [`score`]: the similarity score of two blobs.
//! - [`pairing`]: the choice of the best pair.
//! - [`pipeline`]: the steps of one frame and what follows from each.
//! - [`layout`] and [`overlay`]: where the stages and the results are drawn.
//! - [`masks`] and [`colors`]: how masks are combined, and the colour range
//!   of a marker.

pub mod blob;
pub mod colors;
pub mod error;
pub mod layout;
pub mod masks;
pub mod natural;
pub mod overlay;
pub mod pairing;
pub mod params;
pub mod pipeline;
pub mod rational;
pub mod score;
pub mod similarity;
