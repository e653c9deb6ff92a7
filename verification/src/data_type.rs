//! Column types, their fixed encoded lengths, and decoded values.

use vstd::prelude::*;

verus! {

/// The type of a column.
#[derive(Debug, Copy, Clone, PartialEq, Eq, Structural, PartialOrd, Ord)]
pub enum DataType {
    VARCHAR,
    VARBINARY,
    BOOLEAN,
    SMALLINT,
    INTEGER,
    BIGINT,
    FLOAT,
}

impl DataType {
    /// Number of bytes that the fixed part of a field of this type occupies:
    /// the whole field for the fixed-width types, the length prefix for the
    /// variable-width ones.
    pub open spec fn spec_static_len(self) -> usize {
        match self {
            DataType::VARCHAR => 4,
            DataType::VARBINARY => 4,
            DataType::BOOLEAN => 1,
            DataType::SMALLINT => 2,
            DataType::INTEGER => 4,
            DataType::BIGINT => 8,
            DataType::FLOAT => 8,
        }
    }

    /// Get length of the static part of the column.
    #[verifier::when_used_as_spec(spec_static_len)]
    pub fn static_len(self) -> (len: usize)
        ensures
            len == self.spec_static_len(),
    {
        match self {
            DataType::VARCHAR => 4,
            DataType::VARBINARY => 4,
            DataType::BOOLEAN => 1,
            DataType::SMALLINT => 2,
            DataType::INTEGER => 4,
            DataType::BIGINT => 8,
            DataType::FLOAT => 8,
        }
    }
}

/// One decoded value of a column, or the marker of an absent one.
///
/// A FLOAT is held as the IEEE-754 bit pattern of the number, which is what
/// the codec reads and writes: two FLOAT values are equal when their
/// patterns are.
#[derive(Debug, Clone, PartialEq)]
pub enum Data {
    VARCHAR(String),
    VARBINARY(Vec<u8>),
    BOOLEAN(bool),
    SMALLINT(i16),
    INTEGER(i32),
    BIGINT(i64),
    FLOAT(u64),
    EMPTY,
}

} // verus!
