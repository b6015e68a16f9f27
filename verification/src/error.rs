use vstd::prelude::*;

verus! {

/// An error raised while decoding a message field.
#[derive(Debug, Clone, PartialEq, Eq, Structural)]
pub enum MessageDecodeError {
    /// More data was expected but none is available.
    UnexpectedEof,
    /// A received string could not be decoded as UTF-8.  `valid_up_to` is
    /// the length of the longest prefix of the payload that is valid.
    Utf8Error { valid_up_to: usize },
}

} // verus!
