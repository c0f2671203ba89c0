//! Userspace logic of the Peios kernel boundary: security descriptors, tokens,
//! access requests, events, registry arguments and MessagePack payloads.

pub mod abi;
pub mod access;
pub mod bytes;
pub mod error;
pub mod event;
pub mod file;
pub mod laws;
pub mod msgpack;
pub mod registry;
pub mod security;
pub mod token;
pub mod utf16;
