//! Storage core of a small database engine: a fixed-layout binary tuple
//! codec, the memory pages it works on, and an ordered index over encoded
//! values.

pub mod data_type;
pub mod database;
pub mod error;
pub mod indexing;
pub mod protocol;
pub mod storage;
pub mod sync;
