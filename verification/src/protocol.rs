//! The binary tuple codec: the byte layout of each column type, the
//! functions that pack and unpack one value, and the streams that sequence
//! them over a page.

pub mod cursor;
pub mod deserialize_stream;
pub mod layout;
pub mod pack;
pub mod serialize_stream;
pub mod unpacker;
