//! MessagePack payloads: an encoder, a decoding cursor and a structural validator.
//!
//! Integers and lengths are big-endian, `str` payloads are UTF-8, and a valid payload is
//! exactly one top-level value that takes up every byte.

pub mod cursor;
pub mod encode;
pub mod model;
pub mod reader;
pub mod writer;
