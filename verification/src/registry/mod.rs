//! The registry: keys, values, their security, transactions, and backup. Addresses are given
//! as numbers, zero for a null pointer.

pub mod backup;
pub mod key;
pub mod security;
pub mod transaction;
pub mod value;
