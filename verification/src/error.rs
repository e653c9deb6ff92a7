//! The conditions that the codec, the streams and the index report.

use vstd::prelude::*;

verus! {

/// A recoverable failure of an operation of this crate. An operation that
/// returns one of these has changed nothing.
#[derive(Debug, Clone, Copy, PartialEq, Eq, Structural)]
pub enum Error {
    /// A buffer or page holds fewer bytes than the operation needs.
    InsufficientSpace { required: usize, available: usize },
    /// The bytes are not the encoding of any value: a VARCHAR payload that is
    /// not UTF-8, or a negative length prefix. Also reported for a payload
    /// that is too long for the length prefix to express.
    InvalidEncoding,
    /// Two values of different column types met where one type is required.
    TypeMismatch,
    /// Ordering was asked of a column type that has no comparator yet.
    Unsupported,
}

} // verus!
