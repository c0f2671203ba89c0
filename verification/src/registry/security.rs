//! The security descriptors of keys.

use vstd::prelude::*;
use crate::error::Errno;

verus! {

/// The arguments for reading a descriptor.
#[allow(non_camel_case_types)]
#[derive(Clone, Copy, Debug, PartialEq, Eq, Structural)]
pub struct reg_get_security_args {
    pub security_info: u32,
    pub sd_len: u32,
    pub sd_ptr: u64,
}

/// The arguments for changing a descriptor.
#[allow(non_camel_case_types)]
#[derive(Clone, Copy, Debug, PartialEq, Eq, Structural)]
pub struct reg_set_security_args {
    pub security_info: u32,
    pub sd_len: u32,
    pub sd_ptr: u64,
    pub txn_fd: i32,
    pub _pad: u32,
}

/// The arguments for reading a descriptor. The capacity goes where the kernel puts the length.
pub fn get_security_args(security_info: u32, sd: u64, cap: u32) -> (a: reg_get_security_args)
    ensures
        a == (reg_get_security_args { security_info, sd_len: cap, sd_ptr: sd }),
{
    reg_get_security_args { security_info, sd_len: cap, sd_ptr: sd }
}

/// The length that the caller is told, if the kernel wrote it: when it succeeded, and when
/// the buffer was too small.
pub fn get_security_answer(a: &reg_get_security_args, outcome: Result<(), Errno>) -> (r: Option<u32>)
    ensures
        r == (if outcome is Ok || outcome == Err::<(), Errno>(Errno::Range) {
            Some(a.sd_len)
        } else {
            None
        }),
{
    match outcome {
        Ok(_) => Some(a.sd_len),
        Err(Errno::Range) => Some(a.sd_len),
        Err(_) => None,
    }
}

/// The arguments for changing a descriptor, which must not be empty.
pub fn set_security_request(security_info: u32, sd: u64, sd_len: u32, txn_fd: i32) -> (r: Result<
    reg_set_security_args,
    Errno,
>)
    ensures
        r == (if sd == 0 || sd_len == 0 {
            Err::<reg_set_security_args, Errno>(Errno::Inval)
        } else {
            Ok(reg_set_security_args { security_info, sd_len, sd_ptr: sd, txn_fd, _pad: 0 })
        }),
{
    if sd == 0 || sd_len == 0 {
        return Err(Errno::Inval);
    }
    Ok(reg_set_security_args { security_info, sd_len, sd_ptr: sd, txn_fd, _pad: 0 })
}

} // verus!
