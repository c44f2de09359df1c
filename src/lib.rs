//! Bit-level stepping and sign manipulation of IEEE-754 binary32 encodings.
//!
//! A [`FloatBitPattern`] holds the 32-bit encoding of a single-precision float
//! and moves it to the adjacent encoding by operating on its sign, exponent and
//! mantissa fields directly, without any floating-point arithmetic.

pub mod bit_pattern;
pub mod laws;

pub use bit_pattern::FloatBitPattern;
