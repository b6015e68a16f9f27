//! A codec for a compact binary wire format: typed scalar and
//! variable-length fields are encoded into a byte stream and decoded back,
//! with zero-copy borrowing for byte-array and string fields.

pub mod error;
pub mod field;
pub mod ints;
pub mod slices;
pub mod traits;
pub mod vlq;
