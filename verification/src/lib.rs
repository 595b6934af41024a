//! Exact rational arithmetic over signed integers.
//!
//! A rational value is a signed numerator over a strictly positive
//! denominator.  Construction rejects a zero denominator, the arithmetic
//! operators derive exact results, and simplification reduces a value to
//! lowest terms via the greatest common divisor.

pub mod gcd;
pub mod laws;
pub mod rat;
pub mod ratio;

pub use crate::rat::Rat;
pub use crate::ratio::Ratio;
pub use crate::ratio::RatioError;
