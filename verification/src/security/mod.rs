//! Security identifiers, access-control lists and security descriptors.

pub mod acl_builder;
pub mod codec;
pub mod mapping;
pub mod rules;
pub mod sd_builder;
pub mod sddl;
pub mod sddl_ffi;
pub mod sid;
pub mod text;
pub mod view;
