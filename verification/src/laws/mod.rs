//! What the calls of the library give, stated over their arguments and results in plain
//! numbers, bytes and orders.

pub mod access;
pub mod building;
pub mod conditions;
pub mod event;
pub mod inherit;
pub mod layout;
pub mod message;
pub mod msgpack;
pub mod parsing;
pub mod reading;
pub mod rebuild;
pub mod requests;
pub mod rules;
pub mod sddl;
pub mod steps;
pub mod text_codes;
pub mod token;
pub mod views;
pub mod words;
