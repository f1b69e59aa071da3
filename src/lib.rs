//! Decoding of fixed-width binary floating-point bit patterns into an exact
//! sign / exponent / arbitrary-precision significand triple.

pub mod big;
pub mod decode;
pub mod format;

pub use decode::{parse, ArbFloat, FloatKind};
pub use format::{FormatDesc, FormatError};
