//! Events: handing them to the kernel, and draining the rings that it delivers them through.

pub mod consume;
pub mod emit;
