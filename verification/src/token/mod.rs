//! Access tokens: how they are described, asked about, changed and passed on.

pub mod actions;
pub mod builder;
pub mod claims;
pub mod lcs;
pub mod message;
pub mod ops;
pub mod query;
