//! Conversion of temperature readings among eight scales.
//!
//! A scale is an affine image of the Celsius scale, so every conversion is an
//! affine map with rational coefficients. The library keeps one short
//! arithmetic formula for each ordered pair of scales and proves that all of
//! them agree with the scales' definitions, exactly, over the real numbers.

pub mod formatter;
pub mod formula;
pub mod ratio;
pub mod scales;

pub use formula::{Formula, Step};
pub use ratio::Ratio;
pub use scales::Scales;
